use vstd::prelude::*;

verus! {

/// The canonical error kinds a retrieval can end with. Each is created at
/// the point the condition is detected and is never retried or downgraded.
#[derive(Debug, Clone, PartialEq)]
pub enum ExchangeError {
    /// Malformed symbol or interval input; the caller must correct it.
    Config(String),
    /// The exchange rejected the symbol pair.
    RemoteSymbol,
    /// The exchange rejected the interval; carries the interval tokens the
    /// exchange accepts for this market type.
    RemoteInterval(Vec<String>),
    /// The exchange reported throttling; surfaced, never retried here.
    RateLimited,
    /// The exchange does not serve the requested market type.
    UnsupportedMarketType,
    /// A remote error message passed through unchanged.
    Remote(String),
    /// An error shape or code the translator does not recognize.
    UnrecognizedFault,
    /// A response that does not match the expected schema.
    ShapeFault,
}

/// Joins strings with a separator between neighbours.
pub open spec fn joined(items: Seq<Seq<char>>, sep: Seq<char>) -> Seq<char>
    decreases items.len(),
{
    if items.len() == 0 {
        Seq::empty()
    } else if items.len() == 1 {
        items[0]
    } else {
        items[0] + sep + joined(items.drop_first(), sep)
    }
}

/// Joins the strings of `items` with `sep` between neighbours.
pub fn join_strings(items: &Vec<String>, sep: &str) -> (r: String)
    ensures
        r@ == joined(items@.map_values(|s: String| s@), sep@),
{
    let mut out = String::new();
    if items.len() == 0 {
        return out;
    }
    out.append(items[0].as_str());
    let mut i: usize = 1;
    while i < items.len()
        invariant
            1 <= i <= items@.len(),
            out@ == joined(items@.subrange(0, i as int).map_values(|s: String| s@), sep@),
        decreases items@.len() - i,
    {
        let ghost prev = items@.subrange(0, i as int).map_values(|s: String| s@);
        out.append(sep);
        out.append(items[i].as_str());
        i = i + 1;
        proof {
            let cur = items@.subrange(0, i as int).map_values(|s: String| s@);
            lemma_joined_push(prev, cur, sep@);
        }
    }
    proof {
        assert(items@.subrange(0, items@.len() as int) =~= items@);
    }
    out
}

/// Appending one more string extends a join by the separator and the string.
proof fn lemma_joined_push(prev: Seq<Seq<char>>, cur: Seq<Seq<char>>, sep: Seq<char>)
    requires
        prev.len() >= 1,
        cur.len() == prev.len() + 1,
        forall|k: int| 0 <= k < prev.len() ==> prev[k] == cur[k],
    ensures
        joined(cur, sep) == joined(prev, sep) + sep + cur.last(),
    decreases prev.len(),
{
    if prev.len() == 1 {
        assert(cur.drop_first() =~= seq![cur[1]]);
        assert(joined(seq![cur[1]], sep) == cur[1]);
        assert(joined(cur, sep) == cur[0] + sep + cur[1]);
    } else {
        lemma_joined_push(prev.drop_first(), cur.drop_first(), sep);
        assert(joined(prev, sep) + sep + cur.last() =~= prev[0] + sep + (joined(
            prev.drop_first(),
            sep,
        ) + sep + cur.last()));
    }
}

/// Constructors for the canonical error kinds, mirroring the conditions the
/// adapters detect in exchange responses.
pub struct ExchangeResponseError;

impl ExchangeResponseError {
    /// The exchange rejected the symbol pair.
    pub fn symbol() -> (r: ExchangeError)
        ensures
            r == ExchangeError::RemoteSymbol,
    {
        ExchangeError::RemoteSymbol
    }

    /// The exchange rejected the interval; `valid` lists the tokens the
    /// exchange accepts for this market type.
    pub fn interval(valid: Vec<String>) -> (r: ExchangeError)
        ensures
            r == ExchangeError::RemoteInterval(valid),
    {
        ExchangeError::RemoteInterval(valid)
    }

    /// The exchange reported throttling.
    pub fn too_many_requests() -> (r: ExchangeError)
        ensures
            r == ExchangeError::RateLimited,
    {
        ExchangeError::RateLimited
    }

    /// The exchange does not serve the requested market type.
    pub fn no_support_type() -> (r: ExchangeError)
        ensures
            r == ExchangeError::UnsupportedMarketType,
    {
        ExchangeError::UnsupportedMarketType
    }

    /// A remote error message passed through unchanged.
    pub fn wrap_error(err: String) -> (r: ExchangeError)
        ensures
            r == ExchangeError::Remote(err),
    {
        ExchangeError::Remote(err)
    }

    /// An error shape or code the translator does not recognize.
    pub fn unknown() -> (r: ExchangeError)
        ensures
            r == ExchangeError::UnrecognizedFault,
    {
        ExchangeError::UnrecognizedFault
    }
}

impl ExchangeError {
    /// A human-readable description of the error.
    pub fn message(&self) -> (r: String)
        ensures
            self is RemoteSymbol ==> r@ == "The specified symbol pair does not exist in this exchange."@,
            self matches ExchangeError::RemoteInterval(v) ==> r@
                == "The specified interval of candlestick does not exist in this exchange.\nPossible values:\n  "@
                + joined(v@.map_values(|s: String| s@), ", "@),
            self is RateLimited ==> r@
                == "Request denied due to exceeding rate limit. Let's have some coffee."@,
            self is UnsupportedMarketType ==> r@
                == "This exchange does not support the market type."@,
            self matches ExchangeError::Remote(m) ==> r@ == m@,
            self is UnrecognizedFault ==> r@
                == "Unexpected error has occurred, perhaps the exchange specifications have changed."@,
            self is ShapeFault ==> r@ == "The exchange returned a response of an unexpected shape."@,
            self matches ExchangeError::Config(m) ==> r@ == m@,
    {
        match self {
            ExchangeError::Config(m) => m.clone(),
            ExchangeError::RemoteSymbol => "The specified symbol pair does not exist in this exchange.".to_owned(),
            ExchangeError::RemoteInterval(valid) => {
                let list = join_strings(valid, ", ");
                let mut out =
                    "The specified interval of candlestick does not exist in this exchange.\nPossible values:\n  ".to_owned();
                out.append(list.as_str());
                out
            },
            ExchangeError::RateLimited => "Request denied due to exceeding rate limit. Let's have some coffee.".to_owned(),
            ExchangeError::UnsupportedMarketType => "This exchange does not support the market type.".to_owned(),
            ExchangeError::Remote(m) => m.clone(),
            ExchangeError::UnrecognizedFault => "Unexpected error has occurred, perhaps the exchange specifications have changed.".to_owned(),
            ExchangeError::ShapeFault => "The exchange returned a response of an unexpected shape.".to_owned(),
        }
    }
}

} // verus!
