//! Stream connections: their addresses, when they are made anew, and what a frame calls for.

use crate::backoff::{doubled_ms, Backoff};
use crate::common::events::{same_texts, texts};
use crate::json::{json_document, parse_json, Json};
use crate::text::words::{lowercase, same_text, text_of, to_lower};
use vstd::prelude::*;
use vstd::string::*;

verus! {

/// Why there is no stream address.
#[derive(Debug)]
pub enum UrlError {
    /// The symbol list is empty.
    Empty,
    /// The text is not a URL.
    Invalid(String),
}

/// The serialised form of the URL that a text denotes, where it denotes one.
pub uninterp spec fn url_text(s: Seq<char>) -> Option<Seq<char>>;

/// Parses with [`url::Url::parse`] and serialises again; `None` where the text is refused. The
/// normalisation is left to the name.
#[verifier::external_body]
fn parse_url(s: &str) -> (r: Option<String>)
    ensures
        text_of(r) == url_text(s@),
{
    url::Url::parse(s).ok().map(String::from)
}

/// The streams of one spot symbol.
pub open spec fn spot_streams(symbol: Seq<char>) -> Seq<char> {
    symbol + "@trade/"@ + symbol + "@depth@100ms"@
}

/// The streams of one futures symbol.
pub open spec fn futures_streams(symbol: Seq<char>) -> Seq<char> {
    let s = lowercase(symbol);
    s + "@markPrice@1s/"@ + s + "@openInterest@1s/"@ + s + "@depth5@100ms/"@ + s + "@forceOrder"@
}

/// The streams of all symbols, separated by slashes.
pub open spec fn stream_path(
    symbols: Seq<String>,
    streams: spec_fn(Seq<char>) -> Seq<char>,
) -> Seq<char>
    decreases symbols.len(),
{
    if symbols.len() == 0 {
        Seq::empty()
    } else if symbols.len() == 1 {
        streams(symbols[0]@)
    } else {
        stream_path(symbols.drop_last(), streams) + "/"@ + streams(symbols.last()@)
    }
}

pub open spec fn spot_address(symbols: Seq<String>) -> Seq<char> {
    "wss://stream.binance.com:9443/stream?streams="@ + stream_path(
        symbols,
        |s: Seq<char>| spot_streams(s),
    )
}

pub open spec fn futures_address(symbols: Seq<String>) -> Seq<char> {
    "wss://fstream.binance.com/stream?streams="@ + stream_path(
        symbols,
        |s: Seq<char>| futures_streams(s),
    )
}

/// The address that comes out of a text: it must be a URL, and there must be symbols.
pub open spec fn is_address(symbols: Seq<String>, text: Seq<char>, r: Result<String, UrlError>) -> bool {
    if symbols.len() == 0 {
        r is Err && r->Err_0 is Empty
    } else {
        match url_text(text) {
            Some(u) => r is Ok && r->Ok_0@ == u,
            None => r is Err && r->Err_0 is Invalid && r->Err_0->Invalid_0@ == text,
        }
    }
}

/// The text of the spot address.
pub fn spot_address_text(symbols: &[String]) -> (s: String)
    ensures
        s@ == spot_address(symbols@),
{
    let ghost f = |s: Seq<char>| spot_streams(s);
    let mut s = "wss://stream.binance.com:9443/stream?streams=".to_string();
    let ghost base = s@;
    let mut i: usize = 0;
    proof {
        assert(symbols@.take(0) =~= Seq::<String>::empty());
        assert(base + Seq::<char>::empty() =~= base);
    }
    while i < symbols.len()
        invariant
            i <= symbols@.len(),
            f == (|s: Seq<char>| spot_streams(s)),
            s@ == base + stream_path(symbols@.take(i as int), f),
        decreases symbols@.len() - i,
    {
        proof {
            assert(symbols@.take(i + 1).drop_last() =~= symbols@.take(i as int));
        }
        let ghost before = s@;
        let ghost sym = symbols@[i as int]@;
        if i > 0 {
            s.append("/");
        }
        s.append(symbols[i].as_str());
        s.append("@trade/");
        s.append(symbols[i].as_str());
        s.append("@depth@100ms");
        proof {
            let path = stream_path(symbols@.take(i as int), f);
            if i > 0 {
                assert(s@ =~= base + (path + "/"@ + spot_streams(sym)));
            } else {
                assert(s@ =~= base + spot_streams(sym));
            }
        }
        i = i + 1;
    }
    proof {
        assert(symbols@.take(symbols@.len() as int) =~= symbols@);
    }
    s
}

/// The text of the futures address.
pub fn futures_address_text(symbols: &[String]) -> (s: String)
    ensures
        s@ == futures_address(symbols@),
{
    let ghost f = |s: Seq<char>| futures_streams(s);
    let mut s = "wss://fstream.binance.com/stream?streams=".to_string();
    let ghost base = s@;
    let mut i: usize = 0;
    proof {
        assert(symbols@.take(0) =~= Seq::<String>::empty());
        assert(base + Seq::<char>::empty() =~= base);
    }
    while i < symbols.len()
        invariant
            i <= symbols@.len(),
            f == (|s: Seq<char>| futures_streams(s)),
            s@ == base + stream_path(symbols@.take(i as int), f),
        decreases symbols@.len() - i,
    {
        proof {
            assert(symbols@.take(i + 1).drop_last() =~= symbols@.take(i as int));
        }
        let ghost sym = symbols@[i as int]@;
        let low = to_lower(symbols[i].as_str());
        if i > 0 {
            s.append("/");
        }
        s.append(low.as_str());
        s.append("@markPrice@1s/");
        s.append(low.as_str());
        s.append("@openInterest@1s/");
        s.append(low.as_str());
        s.append("@depth5@100ms/");
        s.append(low.as_str());
        s.append("@forceOrder");
        proof {
            let path = stream_path(symbols@.take(i as int), f);
            if i > 0 {
                assert(s@ =~= base + (path + "/"@ + futures_streams(sym)));
            } else {
                assert(s@ =~= base + futures_streams(sym));
            }
        }
        i = i + 1;
    }
    proof {
        assert(symbols@.take(symbols@.len() as int) =~= symbols@);
    }
    s
}

fn checked_address(text: String) -> (r: Result<String, UrlError>)
    ensures
        match url_text(text@) {
            Some(u) => r is Ok && r->Ok_0@ == u,
            None => r is Err && r->Err_0 is Invalid && r->Err_0->Invalid_0@ == text@,
        },
{
    match parse_url(text.as_str()) {
        Some(u) => Ok(u),
        None => Err(UrlError::Invalid(text)),
    }
}

/// First pause after a failed connection, in milliseconds.
pub const FIRST_PAUSE_MS: u64 = 500;

/// Longest pause after failed connections, in milliseconds.
pub const LONGEST_PAUSE_MS: u64 = 30_000;

/// Pause before a stream is connected anew, in milliseconds.
pub const RECONNECT_PAUSE_MS: u64 = 200;

/// What a connection delivers.
#[derive(Clone, Copy, Debug, PartialEq, Eq, Structural)]
pub enum Frame {
    Text,
    Binary,
    Raw,
    Ping,
    Pong,
    /// Closed by the server, a read error, or the end of the stream.
    Ended,
}

/// What a frame calls for.
#[derive(Clone, Copy, Debug, PartialEq, Eq, Structural)]
pub enum FrameAction {
    Handle,
    /// Answer; where that fails, reconnect.
    SendPong,
    Ignore,
    Reconnect,
}

pub open spec fn frame_action(f: Frame) -> FrameAction {
    match f {
        Frame::Text => FrameAction::Handle,
        Frame::Ping => FrameAction::SendPong,
        Frame::Ended => FrameAction::Reconnect,
        _ => FrameAction::Ignore,
    }
}

/// What a frame calls for.
pub fn on_frame(f: Frame) -> (r: FrameAction)
    ensures
        r == frame_action(f),
{
    match f {
        Frame::Text => FrameAction::Handle,
        Frame::Ping => FrameAction::SendPong,
        Frame::Ended => FrameAction::Reconnect,
        _ => FrameAction::Ignore,
    }
}

/// What a manager does next with the current universe.
#[derive(Debug)]
pub enum BeginAction {
    /// There are no symbols: wait for an update.
    AwaitUniverse,
    Connect(String),
    /// The address cannot be built: stop.
    Fail(UrlError),
}

/// What to do with the symbols whose address is `text`.
pub open spec fn is_begin(
    symbols: Seq<String>,
    text: Seq<char>,
    r: BeginAction,
) -> bool {
    if symbols.len() == 0 {
        r is AwaitUniverse
    } else {
        match url_text(text) {
            Some(u) => r is Connect && r->Connect_0@ == u,
            None => r is Fail && r->Fail_0 is Invalid && r->Fail_0->Invalid_0@ == text,
        }
    }
}

/// Connection rules of the spot stream.
#[derive(Debug)]
pub struct StreamManager {
    backoff: Backoff,
    symbols: Vec<String>,
}

impl StreamManager {
    pub closed spec fn pause(self) -> u64 {
        self.backoff.current()
    }

    pub closed spec fn valid(self) -> bool {
        self.backoff.start() == FIRST_PAUSE_MS && self.backoff.max() == LONGEST_PAUSE_MS
    }

    /// The symbols of the present connection.
    pub closed spec fn subscribed(self) -> Seq<Seq<char>> {
        texts(self.symbols@)
    }

    pub fn new() -> (r: Self)
        ensures
            r.valid(),
            r.pause() == FIRST_PAUSE_MS,
            r.subscribed() == Seq::<Seq<char>>::empty(),
    {
        let symbols: Vec<String> = Vec::new();
        proof {
            assert(texts(symbols@) =~= Seq::<Seq<char>>::empty());
        }
        StreamManager { backoff: Backoff::new(FIRST_PAUSE_MS, LONGEST_PAUSE_MS), symbols }
    }

    /// Address of the trade and depth streams of the symbols.
    pub fn build_url(symbols: &[String]) -> (r: Result<String, UrlError>)
        ensures
            is_address(symbols@, spot_address(symbols@), r),
    {
        if symbols.len() == 0 {
            return Err(UrlError::Empty);
        }
        checked_address(spot_address_text(symbols))
    }

    /// Starts over with the current universe.
    pub fn begin(&mut self, symbols: Vec<String>) -> (r: BeginAction)
        requires
            old(self).valid(),
        ensures
            final(self).valid(),
            final(self).pause() == old(self).pause(),
            final(self).subscribed() == texts(symbols@),
            is_begin(symbols@, spot_address(symbols@), r),
    {
        let r = match Self::build_url(symbols.as_slice()) {
            Ok(u) => BeginAction::Connect(u),
            Err(UrlError::Empty) => BeginAction::AwaitUniverse,
            Err(e) => BeginAction::Fail(e),
        };
        self.symbols = symbols;
        r
    }

    /// Notes the outcome of a connection attempt: the pause to make where it failed.
    pub fn connect_done(&mut self, ok: bool) -> (r: Option<u64>)
        requires
            old(self).valid(),
        ensures
            final(self).valid(),
            final(self).subscribed() == old(self).subscribed(),
            ok ==> r is None && final(self).pause() == FIRST_PAUSE_MS,
            !ok ==> r == Some(old(self).pause()) && final(self).pause() == doubled_ms(
                old(self).pause(),
                LONGEST_PAUSE_MS,
            ),
    {
        if ok {
            self.backoff.succeeded();
            None
        } else {
            Some(self.backoff.failed())
        }
    }

    /// Whether a new universe calls for a new connection.
    pub fn must_reconnect(&self, universe: &Vec<String>) -> (r: bool)
        ensures
            r == (texts(universe@) != self.subscribed()),
    {
        !same_texts(universe, &self.symbols)
    }
}

/// Connection rules of the futures context stream.
#[derive(Debug)]
pub struct FuturesContextStreamManager {
    backoff: Backoff,
    symbols: Vec<String>,
}

impl FuturesContextStreamManager {
    pub closed spec fn pause(self) -> u64 {
        self.backoff.current()
    }

    pub closed spec fn valid(self) -> bool {
        self.backoff.start() == FIRST_PAUSE_MS && self.backoff.max() == LONGEST_PAUSE_MS
    }

    /// The symbols of the present connection.
    pub closed spec fn subscribed(self) -> Seq<Seq<char>> {
        texts(self.symbols@)
    }

    pub fn new() -> (r: Self)
        ensures
            r.valid(),
            r.pause() == FIRST_PAUSE_MS,
            r.subscribed() == Seq::<Seq<char>>::empty(),
    {
        let symbols: Vec<String> = Vec::new();
        proof {
            assert(texts(symbols@) =~= Seq::<Seq<char>>::empty());
        }
        FuturesContextStreamManager {
            backoff: Backoff::new(FIRST_PAUSE_MS, LONGEST_PAUSE_MS),
            symbols,
        }
    }

    /// Address of the mark price, open interest, depth and liquidation streams of the symbols.
    pub fn build_ws_url(symbols: &[String]) -> (r: Result<String, UrlError>)
        ensures
            is_address(symbols@, futures_address(symbols@), r),
    {
        if symbols.len() == 0 {
            return Err(UrlError::Empty);
        }
        checked_address(futures_address_text(symbols))
    }

    /// Starts over with the current universe.
    pub fn begin(&mut self, symbols: Vec<String>) -> (r: BeginAction)
        requires
            old(self).valid(),
        ensures
            final(self).valid(),
            final(self).pause() == old(self).pause(),
            final(self).subscribed() == texts(symbols@),
            is_begin(symbols@, futures_address(symbols@), r),
    {
        let r = match Self::build_ws_url(symbols.as_slice()) {
            Ok(u) => BeginAction::Connect(u),
            Err(UrlError::Empty) => BeginAction::AwaitUniverse,
            Err(e) => BeginAction::Fail(e),
        };
        self.symbols = symbols;
        r
    }

    /// Notes the outcome of a connection attempt: the pause to make where it failed.
    pub fn connect_done(&mut self, ok: bool) -> (r: Option<u64>)
        requires
            old(self).valid(),
        ensures
            final(self).valid(),
            final(self).subscribed() == old(self).subscribed(),
            ok ==> r is None && final(self).pause() == FIRST_PAUSE_MS,
            !ok ==> r == Some(old(self).pause()) && final(self).pause() == doubled_ms(
                old(self).pause(),
                LONGEST_PAUSE_MS,
            ),
    {
        if ok {
            self.backoff.succeeded();
            None
        } else {
            Some(self.backoff.failed())
        }
    }

    /// Whether a new universe calls for a new connection.
    pub fn must_reconnect(&self, universe: &Vec<String>) -> (r: bool)
        ensures
            r == (texts(universe@) != self.subscribed()),
    {
        !same_texts(universe, &self.symbols)
    }
}

/// The stream and the body of a message: a text and any value, as an object or as a list.
pub open spec fn is_envelope(doc: Option<Json>, stream: Seq<char>, data: Json) -> bool {
    &&& doc matches Some(d)
    &&& d.text_part("stream"@, 0, 2) == Some(stream)
    &&& d.part("data"@, 1, 2) == Some(data)
}

/// The stream and the body of a message, where the document is one.
pub fn envelope(doc: &Option<Json>) -> (r: Option<(String, &Json)>)
    ensures
        match r {
            Some(e) => is_envelope(*doc, e.0@, *e.1),
            None => forall|stream: Seq<char>, data: Json| !is_envelope(*doc, stream, data),
        },
{
    match doc {
        Some(d) => match d.get_text_part("stream", 0, 2) {
            Some(stream) => match d.get_part("data", 1, 2) {
                Some(data) => Some((stream, data)),
                None => None,
            },
            None => None,
        },
        None => None,
    }
}

/// What a spot message is.
#[derive(Debug)]
pub enum SpotRoute {
    Trade,
    DepthUpdate,
    Other(String),
}

/// The event type of a message body, or `unknown`.
pub open spec fn event_type(data: Json) -> Seq<char> {
    match data.field("e"@) {
        Some(v) => match v.text() {
            Some(s) => s,
            None => "unknown"@,
        },
        None => "unknown"@,
    }
}

/// The event type of a message body, or `unknown`.
pub fn event_type_of(data: &Json) -> (r: String)
    ensures
        r@ == event_type(*data),
{
    match data.get("e") {
        Some(v) => match v.as_str() {
            Some(s) => s.to_string(),
            None => "unknown".to_string(),
        },
        None => "unknown".to_string(),
    }
}

impl SpotRoute {
    /// The name under which a message of this kind is passed on.
    pub open spec fn label_text(self) -> Seq<char> {
        match self {
            SpotRoute::Trade => "trade"@,
            SpotRoute::DepthUpdate => "depthUpdate"@,
            SpotRoute::Other(s) => s@,
        }
    }

    pub fn label(&self) -> (r: String)
        ensures
            r@ == self.label_text(),
    {
        match self {
            SpotRoute::Trade => "trade".to_string(),
            SpotRoute::DepthUpdate => "depthUpdate".to_string(),
            SpotRoute::Other(s) => s.clone(),
        }
    }
}

/// What a spot message is, by its event type; it is passed on under that type.
pub open spec fn is_spot_route(data: Json, r: SpotRoute) -> bool {
    &&& r.label_text() == event_type(data)
    &&& r is Trade <==> event_type(data) == "trade"@
    &&& r is DepthUpdate <==> event_type(data) == "depthUpdate"@
}

/// What a spot message is, by its event type.
pub fn spot_route(data: &Json) -> (r: SpotRoute)
    ensures
        is_spot_route(*data, r),
{
    proof {
        reveal_strlit("trade");
        reveal_strlit("depthUpdate");
        assert("trade"@[0] == 't');
        assert("depthUpdate"@[0] == 'd');
    }
    let kind = event_type_of(data);
    if same_text(kind.as_str(), "trade") {
        SpotRoute::Trade
    } else if same_text(kind.as_str(), "depthUpdate") {
        SpotRoute::DepthUpdate
    } else {
        SpotRoute::Other(kind)
    }
}

/// A document is a spot message of this stream and kind.
pub open spec fn is_spot_message(doc: Option<Json>, stream: Seq<char>, route: SpotRoute) -> bool {
    exists|data: Json| #[trigger] is_envelope(doc, stream, data) && is_spot_route(data, route)
}

/// The stream of a spot message and what it is; `None` where the bytes are no message.
pub fn read_spot(bytes: &[u8]) -> (r: Option<(String, SpotRoute)>)
    ensures
        match r {
            Some(m) => is_spot_message(json_document(bytes@), m.0@, m.1),
            None => forall|stream: Seq<char>, data: Json|
                !is_envelope(json_document(bytes@), stream, data),
        },
{
    let doc = parse_json(bytes);
    match envelope(&doc) {
        Some((stream, data)) => {
            let route = spot_route(data);
            proof {
                assert(is_envelope(doc, stream@, *data));
                assert(is_spot_message(doc, stream@, route));
            }
            Some((stream, route))
        },
        None => None,
    }
}

/// What a futures message is.
#[derive(Debug)]
pub enum FuturesRoute {
    Depth,
    ForceOrder,
    MarkPrice,
    OpenInterest,
    Other(String),
}

/// What a futures message is, by its event type.
pub open spec fn is_futures_route(data: Json, r: FuturesRoute) -> bool {
    &&& r is Depth <==> event_type(data) == "depthUpdate"@
    &&& r is ForceOrder <==> event_type(data) == "forceOrder"@
    &&& r is MarkPrice <==> event_type(data) == "markPriceUpdate"@
    &&& r is OpenInterest <==> event_type(data) == "openInterest"@
    &&& r matches FuturesRoute::Other(s) ==> s@ == event_type(data)
}

/// What a futures message is, by its event type.
pub fn futures_route(data: &Json) -> (r: FuturesRoute)
    ensures
        is_futures_route(*data, r),
{
    proof {
        reveal_strlit("depthUpdate");
        reveal_strlit("forceOrder");
        reveal_strlit("markPriceUpdate");
        reveal_strlit("openInterest");
        assert("forceOrder"@[0] == 'f');
        assert("depthUpdate"@[0] == 'd');
        assert("markPriceUpdate"@[0] == 'm');
        assert("openInterest"@[0] == 'o');
    }
    let kind = event_type_of(data);
    if same_text(kind.as_str(), "depthUpdate") {
        FuturesRoute::Depth
    } else if same_text(kind.as_str(), "forceOrder") {
        FuturesRoute::ForceOrder
    } else if same_text(kind.as_str(), "markPriceUpdate") {
        FuturesRoute::MarkPrice
    } else if same_text(kind.as_str(), "openInterest") {
        FuturesRoute::OpenInterest
    } else {
        FuturesRoute::Other(kind)
    }
}

/// A document is a futures message of this kind.
pub open spec fn is_futures_message(doc: Option<Json>, route: FuturesRoute) -> bool {
    exists|stream: Seq<char>, data: Json| #[trigger]
        is_envelope(doc, stream, data) && is_futures_route(data, route)
}

/// What a futures message is; `None` where the bytes are no message.
pub fn read_futures(bytes: &[u8]) -> (r: Option<FuturesRoute>)
    ensures
        match r {
            Some(route) => is_futures_message(json_document(bytes@), route),
            None => forall|stream: Seq<char>, data: Json|
                !is_envelope(json_document(bytes@), stream, data),
        },
{
    let doc = parse_json(bytes);
    match envelope(&doc) {
        Some((stream, data)) => {
            let route = futures_route(data);
            proof {
                assert(is_envelope(doc, stream@, *data));
                assert(is_futures_message(doc, route));
            }
            Some(route)
        },
        None => None,
    }
}

} // verus!
