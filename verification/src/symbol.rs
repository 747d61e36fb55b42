//! Instruments traded on the Vietnamese market: three-letter stocks, VN30
//! index futures and the market indices, parsed from raw ticker text.

use vstd::prelude::*;
use vstd::utf8::{
    encode_scalar, encode_utf8, has_width_1_encoding, has_width_2_encoding, has_width_3_encoding,
    has_width_4_encoding, is_ascii_chars, is_ascii_chars_encode_utf8, leading_byte_width_2,
    leading_byte_width_3, leading_byte_width_4, char_is_scalar,
};
use crate::errors::MarketDataError;
use crate::text::{
    ascii_upper, ascii_upper_char, is_ascii_alpha, is_ascii_alpha_char, is_ascii_text, is_white,
    lemma_normalize_fixed, lemma_normalize_idempotent, lemma_texts_push, no_ascii_lower, normalize,
    normalize_str, owned, starts_with, text_eq, text_starts_with, texts, trim, trim_end, trim_start,
};

verus! {

/// A financial instrument traded on the Vietnamese market.
#[derive(Debug, Clone, PartialEq, Eq)]
pub enum Instrument {
    /// An underlying stock, such as `"HPG"`.
    Stock(StockSymbol),
    /// A VN30 index future, such as `"VN30F2409"`.
    IndexFuture(FutureContract),
    /// A market index, `"VN30"` or `"VNINDEX"`.
    Index(IndexSymbol),
}

/// A stock ticker: three upper-case ASCII letters.
#[derive(Debug, Clone, PartialEq, Eq)]
pub struct StockSymbol {
    pub symbol: String,
}

/// A VN30 index future contract.
#[derive(Debug, Clone, PartialEq, Eq)]
pub struct FutureContract {
    /// Always `"VN30F"`.
    pub underlying: String,
    /// Last two digits of the expiry year.
    pub year: u8,
    /// Expiry month, 1 to 12.
    pub month: u8,
    /// The full nine-character code, such as `"VN30F2409"`.
    pub canonical_symbol: String,
}

/// A market index: `"VN30"` or `"VNINDEX"`.
#[derive(Debug, Clone, PartialEq, Eq)]
pub struct IndexSymbol {
    pub symbol: String,
}

/// Characters that separate an exchange name from a ticker.
pub open spec fn is_separator(c: char) -> bool {
    c == ':' || c == '.' || c == '/'
}

/// The pieces of a text between separators, as `str::split` yields them
/// (one piece more than there are separators).
pub open spec fn split_parts(s: Seq<char>) -> Seq<Seq<char>>
    decreases s.len(),
{
    if s.len() == 0 {
        seq![seq![]]
    } else {
        let p = split_parts(s.drop_last());
        if is_separator(s.last()) {
            p.push(seq![])
        } else {
            p.update(p.len() - 1, p.last().push(s.last()))
        }
    }
}

/// Exchange names that may prefix or suffix a ticker.
pub open spec fn is_exchange(t: Seq<char>) -> bool {
    t == "HOSE"@ || t == "HNX"@ || t == "UPCOM"@ || t == "HSX"@
}

/// Three ASCII letters.
pub open spec fn is_stock_code(t: Seq<char>) -> bool {
    t.len() == 3 && forall|i: int| 0 <= i < 3 ==> is_ascii_alpha(#[trigger] t[i])
}

/// The normal forms of the pieces that are not exchange names, in order.
pub open spec fn tickers(parts: Seq<Seq<char>>) -> Seq<Seq<char>>
    decreases parts.len(),
{
    if parts.len() == 0 {
        seq![]
    } else {
        let k = tickers(parts.drop_last());
        let t = normalize(parts.last());
        if is_exchange(t) {
            k
        } else {
            k.push(t)
        }
    }
}

/// Why a text with more than one exchange name and one ticker is refused.
pub open spec fn extra_parts_reason() -> Seq<char> {
    "Symbol must be one ticker with at most one exchange name"@
}

/// What reading a text as a stock gives: its ticker, or the reason for
/// refusing it. The text is split at `:`, `.` and `/`; pieces that are
/// exchange names once normalised are set aside; the first other piece must
/// be three ASCII letters, and it must be the only other piece, with at most
/// two pieces in all.
pub open spec fn stock_verdict(s: Seq<char>) -> Result<Seq<char>, Seq<char>> {
    let parts = split_parts(s);
    let ks = tickers(parts);
    if s.len() == 0 {
        Err("Symbol is empty"@)
    } else if ks.len() == 0 {
        Err("Symbol is not in any exchange"@)
    } else if !is_stock_code(ks[0]) {
        Err("Stock symbol must be 3 alphabetic characters"@)
    } else if parts.len() > 2 || ks.len() > 1 {
        Err(extra_parts_reason())
    } else {
        Ok(ks[0])
    }
}

/// Three upper-case ASCII letters: the form of an accepted ticker.
pub open spec fn is_upper_code(t: Seq<char>) -> bool {
    t.len() == 3 && forall|i: int| 0 <= i < 3 ==> 'A' <= #[trigger] t[i] && t[i] <= 'Z'
}

/// A text without separators is a single piece.
proof fn lemma_split_single(s: Seq<char>)
    requires
        forall|i: int| 0 <= i < s.len() ==> !is_separator(#[trigger] s[i]),
    ensures
        split_parts(s) == seq![s],
    decreases s.len(),
{
    if s.len() == 0 {
        assert(s =~= Seq::<char>::empty());
    } else {
        lemma_split_single(s.drop_last());
        assert(s.drop_last().push(s.last()) =~= s);
        assert(!is_separator(s[s.len() - 1]));
        let p = split_parts(s.drop_last());
        assert(p.update(0, s) =~= seq![s]);
    }
}

/// A text that is one piece, already in normal form and no exchange name
/// is its own classification text and its own only ticker.
proof fn lemma_plain_text(t: Seq<char>)
    requires
        t.len() > 0,
        forall|i: int| 0 <= i < t.len() ==> !is_separator(#[trigger] t[i]),
        normalize(t) == t,
        !is_exchange(t),
    ensures
        split_parts(t) == seq![t],
        tickers(split_parts(t)) == seq![t],
        core_text(t) == t,
{
    lemma_split_single(t);
    let p = seq![t];
    assert(p.drop_last() =~= Seq::<Seq<char>>::empty());
    assert(p.last() == t);
    assert(tickers(p.drop_last()) == Seq::<Seq<char>>::empty());
    assert(tickers(p) =~= seq![t]);
}

/// An accepted ticker reads back as itself: three upper-case letters that
/// are no exchange name are a stock text of their own.
pub proof fn lemma_upper_code_reparses(c: Seq<char>)
    requires
        is_upper_code(c),
        !is_exchange(c),
    ensures
        stock_verdict(c) == Ok::<Seq<char>, Seq<char>>(c),
{
    assert(normalize(c) == c) by {
        lemma_normalize_fixed(c);
    }
    lemma_plain_text(c);
}

proof fn lemma_tickers_not_exchange(parts: Seq<Seq<char>>)
    ensures
        forall|i: int| 0 <= i < tickers(parts).len() ==> !is_exchange(#[trigger] tickers(parts)[i]),
    decreases parts.len(),
{
    if parts.len() > 0 {
        let k = tickers(parts.drop_last());
        lemma_tickers_not_exchange(parts.drop_last());
        assert forall|i: int| 0 <= i < tickers(parts).len() implies !is_exchange(
            #[trigger] tickers(parts)[i],
        ) by {
            if i < k.len() {
                assert(tickers(parts)[i] == k[i]);
            }
        }
    }
}

proof fn lemma_split_step(s: Seq<char>, i: int)
    requires
        0 <= i < s.len(),
    ensures
        ({
            let p = split_parts(s.take(i));
            split_parts(s.take(i + 1)) == if is_separator(s[i]) {
                p.push(seq![])
            } else {
                p.update(p.len() - 1, p.last().push(s[i]))
            }
        }),
{
    assert(s.take(i + 1).drop_last() =~= s.take(i));
}

/// The normal form of a ticker piece is an exchange name.
fn is_exchange_text(t: &str) -> (r: bool)
    ensures
        r == is_exchange(t@),
{
    text_eq(t, "HOSE") || text_eq(t, "HNX") || text_eq(t, "UPCOM") || text_eq(t, "HSX")
}

/// Three ASCII letters.
fn is_stock_code_text(t: &str) -> (r: bool)
    ensures
        r == is_stock_code(t@),
{
    if t.unicode_len() != 3 {
        return false;
    }
    is_ascii_alpha_char(t.get_char(0)) && is_ascii_alpha_char(t.get_char(1)) && is_ascii_alpha_char(
        t.get_char(2),
    )
}

fn is_separator_char(c: char) -> (r: bool)
    ensures
        r == is_separator(c),
{
    c == ':' || c == '.' || c == '/'
}

/// The normal forms of the pieces of `s` that are not exchange names, and
/// whether `s` has more than two pieces.
fn split_tickers(s: &str) -> (r: (Vec<String>, bool))
    ensures
        texts(r.0@) == tickers(split_parts(s@)),
        r.1 == (split_parts(s@).len() > 2),
        forall|k: int| 0 <= k < r.0@.len() ==> no_ascii_lower(#[trigger] r.0@[k]@),
{
    let n = s.unicode_len();
    let ghost sv = s@;
    let ghost mut done: Seq<Seq<char>> = seq![];
    let mut ks: Vec<String> = Vec::new();
    let mut seen: usize = 0;
    let mut start: usize = 0;
    let mut i: usize = 0;
    assert(sv.take(0) =~= seq![]);
    assert(sv.subrange(0, 0) =~= seq![]);
    loop
        invariant
            sv == s@,
            n == sv.len(),
            0 <= start <= i <= n,
            split_parts(sv.take(i as int)) == done.push(sv.subrange(start as int, i as int)),
            texts(ks@) == tickers(done),
            forall|k: int| 0 <= k < ks@.len() ==> no_ascii_lower(#[trigger] ks@[k]@),
            seen == if done.len() < 3 {
                done.len() as int
            } else {
                3
            },
        decreases n - i,
    {
        let at_end = i == n;
        if at_end || is_separator_char(s.get_char(i)) {
            let piece = s.substring_char(start, i);
            let t = normalize_str(piece);
            let ghost cur = sv.subrange(start as int, i as int);
            let ghost before = ks@;
            let ghost tv = t;
            if !is_exchange_text(t.as_str()) {
                ks.push(t);
                proof {
                    lemma_texts_push(before, tv);
                }
            }
            proof {
                assert(done.push(cur).drop_last() =~= done);
                assert(done.push(cur).last() == cur);
                done = done.push(cur);
            }
            if seen < 3 {
                seen = seen + 1;
            }
            if at_end {
                proof {
                    assert(sv.take(n as int) =~= sv);
                    assert(sv.subrange(start as int, i as int) == cur);
                }
                return (ks, seen > 2);
            }
            proof {
                lemma_split_step(sv, i as int);
                assert(sv.subrange(i + 1, i + 1) =~= seq![]);
            }
            start = i + 1;
        } else {
            proof {
                lemma_split_step(sv, i as int);
                assert(sv.subrange(start as int, i + 1) =~= sv.subrange(start as int, i as int).push(
                    sv[i as int],
                ));
            }
        }
        i = i + 1;
    }
}

impl StockSymbol {
    /// Parses a stock ticker, dropping an exchange prefix or suffix such as
    /// `"HOSE:HPG"`, `"HPG.HOSE"`, `"UPCOM:BSR"` or `"HNX/SHB"`.
    ///
    /// The text is split at `:`, `.` and `/`; it must consist of one piece
    /// that is three ASCII letters once trimmed and upper-cased, and at most
    /// one more piece that is the exchange name `HOSE`, `HNX`, `UPCOM` or
    /// `HSX`.
    pub fn new(symbol: &str) -> (r: Result<StockSymbol, MarketDataError>)
        ensures
            match stock_verdict(symbol@) {
                Ok(code) => r matches Ok(st) && st.symbol@ == code,
                Err(why) => r matches Err(MarketDataError::InvalidData { symbol: s, reason }) && s@
                    == symbol@ && reason@ == why,
            },
            r matches Ok(st) ==> is_upper_code(st.symbol@) && !is_exchange(st.symbol@),
            r matches Ok(st) ==> stock_verdict(st.symbol@) == Ok::<Seq<char>, Seq<char>>(st.symbol@),
    {
        let n = symbol.unicode_len();
        if n == 0 {
            return Err(
                MarketDataError::InvalidData {
                    symbol: owned(symbol),
                    reason: owned("Symbol is empty"),
                },
            );
        }
        let (ks, many) = split_tickers(symbol);
        if ks.len() == 0 {
            return Err(
                MarketDataError::InvalidData {
                    symbol: owned(symbol),
                    reason: owned("Symbol is not in any exchange"),
                },
            );
        }
        assert(texts(ks@)[0] == ks@[0]@);
        if !is_stock_code_text(ks[0].as_str()) {
            return Err(
                MarketDataError::InvalidData {
                    symbol: owned(symbol),
                    reason: owned("Stock symbol must be 3 alphabetic characters"),
                },
            );
        }
        if many || ks.len() > 1 {
            return Err(
                MarketDataError::InvalidData {
                    symbol: owned(symbol),
                    reason: owned("Symbol must be one ticker with at most one exchange name"),
                },
            );
        }
        let code = ks[0].clone();
        proof {
            lemma_tickers_not_exchange(split_parts(symbol@));
            assert(no_ascii_lower(ks@[0]@));
            assert(is_upper_code(code@));
            lemma_upper_code_reparses(code@);
        }
        Ok(StockSymbol { symbol: code })
    }
}

/// The UTF-8 bytes `VN30F`.
pub open spec fn future_prefix_bytes() -> Seq<u8> {
    seq![86u8, 78u8, 51u8, 48u8, 70u8]
}

/// Byte length nine and the prefix `VN30F`: the shape a future code is
/// checked for before its year and month are read.
pub open spec fn has_future_shape(b: Seq<u8>) -> bool {
    b.len() == 9 && b.subrange(0, 5) == future_prefix_bytes()
}

pub open spec fn is_digit_byte(b: u8) -> bool {
    48 <= b <= 57
}
/// `u8::from_str` on a two-byte text, restricted to what a code's year
/// and month may be: two ASCII digits.
pub open spec fn parse_two_bytes(b0: u8, b1: u8) -> Option<u8> {
    if is_digit_byte(b0) && is_digit_byte(b1) {
        Some(((b0 - 48) * 10 + (b1 - 48)) as u8)
    } else {
        None
    }
}

fn parse_two(b0: u8, b1: u8) -> (r: Option<u8>)
    ensures
        r == parse_two_bytes(b0, b1),
{
    if 48 <= b0 && b0 <= 57 && 48 <= b1 && b1 <= 57 {
        Some((b0 - 48) * 10 + (b1 - 48))
    } else {
        None
    }
}

/// What reading a normalised text as a future code gives: its expiry year
/// and month, or the reason it is refused. The text's UTF-8 bytes must be
/// nine, start with `VN30F`, and end with a two-digit year and a two-digit
/// month from 1 to 12.
pub open spec fn future_verdict(v: Seq<char>) -> Result<(u8, u8), Seq<char>> {
    let b = encode_utf8(v);
    if !has_future_shape(b) {
        Err("Symbol is not valid"@)
    } else if parse_two_bytes(b[5], b[6]) is None {
        Err("Year is invalid: invalid digit found in string"@)
    } else if parse_two_bytes(b[7], b[8]) is None {
        Err("Month is invalid: invalid digit found in string"@)
    } else if !(1 <= parse_two_bytes(b[7], b[8])->0 <= 12) {
        Err("Month must be between 1 and 12"@)
    } else {
        Ok((parse_two_bytes(b[5], b[6])->0, parse_two_bytes(b[7], b[8])->0))
    }
}

impl FutureContract {
    /// Parses a VN30 future code such as `"VN30F2409"`: after trimming and
    /// upper-casing, nine bytes starting with `VN30F`, a two-digit year and
    /// a month from `01` to `12`.
    pub fn new(raw: &str) -> (r: Result<FutureContract, MarketDataError>)
        ensures
            match future_verdict(normalize(raw@)) {
                Ok((y, m)) => r matches Ok(fc) && fc.underlying@ == "VN30F"@ && fc.year == y && fc.month
                    == m && fc.canonical_symbol@ == normalize(raw@),
                Err(why) => r matches Err(MarketDataError::InvalidData { symbol: s, reason }) && s@
                    == normalize(raw@) && reason@ == why,
            },
    {
        let u = normalize_str(raw);
        let bytes = u.as_str().as_bytes();
        let ghost b = encode_utf8(u@);
        assert(bytes@ == b);
        if bytes.len() != 9 || !(bytes[0] == 86 && bytes[1] == 78 && bytes[2] == 51 && bytes[3] == 48
            && bytes[4] == 70) {
            assert(!has_future_shape(b)) by {
                if b.len() == 9 && b.subrange(0, 5) == future_prefix_bytes() {
                    assert(b[0] == b.subrange(0, 5)[0]);
                    assert(b[1] == b.subrange(0, 5)[1]);
                    assert(b[2] == b.subrange(0, 5)[2]);
                    assert(b[3] == b.subrange(0, 5)[3]);
                    assert(b[4] == b.subrange(0, 5)[4]);
                }
            }
            return Err(
                MarketDataError::InvalidData { symbol: u, reason: owned("Symbol is not valid") },
            );
        }
        assert(has_future_shape(b)) by {
            assert(b.subrange(0, 5) =~= future_prefix_bytes());
        }
        let year = match parse_two(bytes[5], bytes[6]) {
            Some(y) => y,
            None => {
                return Err(
                    MarketDataError::InvalidData {
                        symbol: u,
                        reason: owned("Year is invalid: invalid digit found in string"),
                    },
                );
            },
        };
        let month = match parse_two(bytes[7], bytes[8]) {
            Some(m) => m,
            None => {
                return Err(
                    MarketDataError::InvalidData {
                        symbol: u,
                        reason: owned("Month is invalid: invalid digit found in string"),
                    },
                );
            },
        };
        if month < 1 || month > 12 {
            return Err(
                MarketDataError::InvalidData {
                    symbol: u,
                    reason: owned("Month must be between 1 and 12"),
                },
            );
        }
        Ok(FutureContract { underlying: owned("VN30F"), year, month, canonical_symbol: u })
    }
}

impl IndexSymbol {
    /// Parses a market index name: `"VN30"` or `"VNINDEX"` once trimmed and
    /// upper-cased.
    pub fn new(symbol: &str) -> (r: Result<IndexSymbol, MarketDataError>)
        ensures
            normalize(symbol@) == "VN30"@ ==> (r matches Ok(ix) && ix.symbol@ == "VN30"@),
            normalize(symbol@) == "VNINDEX"@ ==> (r matches Ok(ix) && ix.symbol@ == "VNINDEX"@),
            normalize(symbol@) != "VN30"@ && normalize(symbol@) != "VNINDEX"@ ==> (r matches Err(
                MarketDataError::InvalidData { symbol: s, reason },
            ) && s@ == symbol@ && reason@ == "Index is not valid"@),
    {
        let t = normalize_str(symbol);
        if text_eq(t.as_str(), "VN30") {
            Ok(IndexSymbol { symbol: owned("VN30") })
        } else if text_eq(t.as_str(), "VNINDEX") {
            Ok(IndexSymbol { symbol: owned("VNINDEX") })
        } else {
            Err(
                MarketDataError::InvalidData {
                    symbol: owned(symbol),
                    reason: owned("Index is not valid"),
                },
            )
        }
    }
}

/// What `parse_canonical` reads a text as, once normalised: an index name,
/// a future code (prefix `VN30F`), or otherwise a stock.
pub open spec fn is_index_name(u: Seq<char>) -> bool {
    u == "VN30"@ || u == "VNINDEX"@
}

/// The text a normalised instrument text is classified by: its single
/// non-exchange piece when it has at most one exchange name beside it,
/// otherwise the whole text.
pub open spec fn core_text(u: Seq<char>) -> Seq<char> {
    let parts = split_parts(u);
    let ks = tickers(parts);
    if ks.len() == 1 && parts.len() <= 2 {
        ks[0]
    } else {
        u
    }
}

impl Instrument {
    /// Recognises an instrument from its text, an exchange name beside it
    /// set aside: `VN30`/`VNINDEX` are indices, texts starting with `VN30F`
    /// are futures, everything else is read as a stock ticker.
    pub fn parse_canonical(s: &str) -> (r: Result<Instrument, MarketDataError>)
        ensures
            parse_canonical_outcome(s@, r),
            r matches Ok(i) ==> reparses(i),
    {
        let u = normalize_str(s);
        let (ks, many) = split_tickers(u.as_str());
        let core = if ks.len() == 1 && !many {
            assert(texts(ks@)[0] == ks@[0]@);
            ks[0].clone()
        } else {
            owned(u.as_str())
        };
        if text_eq(core.as_str(), "VN30") || text_eq(core.as_str(), "VNINDEX") {
            match IndexSymbol::new(core.as_str()) {
                Ok(ix) => {
                    proof {
                        lemma_index_text(ix.symbol@);
                    }
                    Ok(Instrument::Index(ix))
                },
                Err(e) => Err(e),
            }
        } else if text_starts_with(core.as_str(), "VN30F") {
            match FutureContract::new(core.as_str()) {
                Ok(fc) => {
                    proof {
                        lemma_future_text(fc.canonical_symbol@);
                    }
                    Ok(Instrument::IndexFuture(fc))
                },
                Err(e) => Err(e),
            }
        } else {
            match StockSymbol::new(u.as_str()) {
                Ok(st) => {
                    proof {
                        lemma_stock_text(st.symbol@);
                    }
                    Ok(Instrument::Stock(st))
                },
                Err(e) => Err(e),
            }
        }
    }

    /// The normalised text of the instrument.
    pub open spec fn symbol_text(self) -> Seq<char> {
        match self {
            Instrument::Stock(st) => st.symbol@,
            Instrument::IndexFuture(fc) => fc.canonical_symbol@,
            Instrument::Index(ix) => ix.symbol@,
        }
    }

    /// The normalised text of the instrument, such as `"HPG"`,
    /// `"VN30F2409"` or `"VN30"`.
    pub fn as_str(&self) -> (r: &str)
        ensures
            r@ == self.symbol_text(),
    {
        match self {
            Instrument::Stock(st) => st.symbol.as_str(),
            Instrument::IndexFuture(fc) => fc.canonical_symbol.as_str(),
            Instrument::Index(ix) => ix.symbol.as_str(),
        }
    }
}


/// What [`Instrument::parse_canonical`] returns for the text `s`.
pub open spec fn parse_canonical_outcome(s: Seq<char>, r: Result<Instrument, MarketDataError>) -> bool {
    let u = normalize(s);
    let c = core_text(u);
    if is_index_name(c) {
        index_outcome(c, r)
    } else if starts_with(c, "VN30F"@) {
        future_outcome(c, r)
    } else {
        stock_outcome(u, r)
    }
}

/// The outcome of reading a normalised text `u` as an index, as
/// [`IndexSymbol::new`] states it, lifted to an instrument.
pub open spec fn index_outcome(u: Seq<char>, r: Result<Instrument, MarketDataError>) -> bool {
    let v = normalize(u);
    if v == "VN30"@ {
        r matches Ok(Instrument::Index(ix)) && ix.symbol@ == "VN30"@
    } else if v == "VNINDEX"@ {
        r matches Ok(Instrument::Index(ix)) && ix.symbol@ == "VNINDEX"@
    } else {
        r matches Err(MarketDataError::InvalidData { symbol: x, reason }) && x@ == u && reason@
            == "Index is not valid"@
    }
}

/// The outcome of reading a normalised text `u` as a future, as
/// [`FutureContract::new`] states it, lifted to an instrument.
pub open spec fn future_outcome(u: Seq<char>, r: Result<Instrument, MarketDataError>) -> bool {
    let v = normalize(u);
    match future_verdict(v) {
        Ok((y, m)) => r matches Ok(Instrument::IndexFuture(fc)) && fc.underlying@ == "VN30F"@ && fc.year
            == y && fc.month == m && fc.canonical_symbol@ == v,
        Err(why) => r matches Err(MarketDataError::InvalidData { symbol: s, reason }) && s@ == v
            && reason@ == why,
    }
}

/// The outcome of reading a normalised text `u` as a stock, as
/// [`StockSymbol::new`] states it, lifted to an instrument.
pub open spec fn stock_outcome(u: Seq<char>, r: Result<Instrument, MarketDataError>) -> bool {
    match stock_verdict(u) {
        Ok(code) => r matches Ok(Instrument::Stock(st)) && st.symbol@ == code,
        Err(why) => r matches Err(MarketDataError::InvalidData { symbol: s, reason }) && s@ == u
            && reason@ == why,
    }
}

/// Two instruments of the same kind with the same text (and, for futures,
/// the same expiry).
pub open spec fn same_instrument(a: Instrument, b: Instrument) -> bool {
    match (a, b) {
        (Instrument::Stock(x), Instrument::Stock(y)) => x.symbol@ == y.symbol@,
        (Instrument::IndexFuture(x), Instrument::IndexFuture(y)) => {
            &&& x.underlying@ == y.underlying@
            &&& x.year == y.year
            &&& x.month == y.month
            &&& x.canonical_symbol@ == y.canonical_symbol@
        },
        (Instrument::Index(x), Instrument::Index(y)) => x.symbol@ == y.symbol@,
        _ => false,
    }
}

/// Reading the text of `i` back gives `i` again.
pub open spec fn reparses(i: Instrument) -> bool {
    forall|r: Result<Instrument, MarketDataError>|
        #[trigger] parse_canonical_outcome(i.symbol_text(), r) ==> (r matches Ok(j) && same_instrument(
            i,
            j,
        ))
}

/// The index names are their own classification texts.
proof fn lemma_index_text(t: Seq<char>)
    requires
        t == "VN30"@ || t == "VNINDEX"@,
    ensures
        normalize(t) == t,
        core_text(t) == t,
        is_index_name(t),
{
    reveal_strlit("VN30");
    reveal_strlit("VNINDEX");
    reveal_strlit("HOSE");
    reveal_strlit("HNX");
    reveal_strlit("UPCOM");
    reveal_strlit("HSX");
    assert(t.len() == 4 || t.len() == 7);
    assert(t[0] == 'V');
    assert("HOSE"@[0] == 'H');
    assert(!is_exchange(t));
    lemma_normalize_fixed(t);
    lemma_plain_text(t);
}

/// A character's code read through the narrower integer types.
proof fn lemma_char_casts(ch: char)
    ensures
        0 <= ch as int <= 0x10FFFF,
        (ch as u32) as int == ch as int,
        (ch as int) < 256 ==> (ch as u8) as int == ch as int,
{
}

/// Every byte below 128 means every character is ASCII.
proof fn lemma_ascii_bytes(v: Seq<char>)
    requires
        forall|i: int| 0 <= i < encode_utf8(v).len() ==> #[trigger] encode_utf8(v)[i] < 128,
    ensures
        is_ascii_chars(v),
    decreases v.len(),
{
    if v.len() > 0 {
        let c0 = v[0] as u32;
        char_is_scalar(v[0]);
        let b = encode_utf8(v);
        let e0 = encode_scalar(c0);
        assert(b[0] == e0[0]);
        if !has_width_1_encoding(c0) {
            if has_width_2_encoding(c0) {
                assert(leading_byte_width_2(c0) >= 128) by (bit_vector)
                    requires
                        has_width_2_encoding(c0),
                ;
            } else if has_width_3_encoding(c0) {
                assert(leading_byte_width_3(c0) >= 128) by (bit_vector)
                    requires
                        has_width_3_encoding(c0),
                ;
            } else {
                assert(leading_byte_width_4(c0) >= 128) by (bit_vector)
                    requires
                        has_width_4_encoding(c0),
                ;
            }
        }
        let rest = encode_utf8(v.drop_first());
        assert(e0.len() == 1);
        assert forall|i: int| 0 <= i < rest.len() implies #[trigger] rest[i] < 128 by {
            assert(rest[i] == b[i + 1]);
        }
        lemma_ascii_bytes(v.drop_first());
        assert(has_width_1_encoding(c0));
        lemma_char_casts(v[0]);
        assert('\0' <= v[0] && v[0] <= '\u{7f}');
        assert forall|i: int| 1 <= i < v.len() implies '\0' <= #[trigger] v[i] && v[i] <= '\u{7f}' by {
            assert(v[i] == v.drop_first()[i - 1]);
        }
    }
}

/// A future code that parses is plain ASCII and its own classification
/// text.
proof fn lemma_future_text(v: Seq<char>)
    requires
        has_future_shape(encode_utf8(v)),
        parse_two_bytes(encode_utf8(v)[5], encode_utf8(v)[6]) is Some,
        parse_two_bytes(encode_utf8(v)[7], encode_utf8(v)[8]) is Some,
    ensures
        normalize(v) == v,
        core_text(v) == v,
        !is_index_name(v),
        starts_with(v, "VN30F"@),
{
    let b = encode_utf8(v);
    assert forall|i: int| 0 <= i < b.len() implies #[trigger] b[i] < 128 by {
        if i < 5 {
            assert(b[i] == b.subrange(0, 5)[i]);
        }
    }
    lemma_ascii_bytes(v);
    is_ascii_chars_encode_utf8(v);
    assert forall|i: int| 0 <= i < 5 implies #[trigger] v[i] as u8 == future_prefix_bytes()[i] by {
        assert(b[i] == b.subrange(0, 5)[i]);
    }
    reveal_strlit("VN30");
    reveal_strlit("VNINDEX");
    reveal_strlit("VN30F");
    reveal_strlit("HOSE");
    reveal_strlit("HNX");
    reveal_strlit("UPCOM");
    reveal_strlit("HSX");
    assert(v.len() == 9);
    assert(v[0] == 'V' && v[1] == 'N' && v[2] == '3' && v[3] == '0' && v[4] == 'F');
    assert forall|i: int| 0 <= i < 9 implies (#[trigger] v[i] as int) == b[i] as int by {
        lemma_char_casts(v[i]);
        assert(v[i] as u8 == b[i]);
    }
    assert forall|i: int| 5 <= i < 9 implies '0' <= #[trigger] v[i] && v[i] <= '9' by {
        assert(v[i] as int == b[i] as int);
    }
    assert(!is_exchange(v));
    assert(is_ascii_text(v));
    assert(no_ascii_lower(v));
    lemma_normalize_fixed(v);
    lemma_plain_text(v);
    assert(v.subrange(0, 5) =~= "VN30F"@);
}

/// An accepted stock ticker is its own classification text.
proof fn lemma_stock_text(c: Seq<char>)
    requires
        is_upper_code(c),
        !is_exchange(c),
    ensures
        normalize(c) == c,
        core_text(c) == c,
        !is_index_name(c),
        !starts_with(c, "VN30F"@),
{
    reveal_strlit("VN30");
    reveal_strlit("VNINDEX");
    reveal_strlit("VN30F");
    lemma_normalize_fixed(c);
    lemma_plain_text(c);
}

/// Reading a text and reading its normal form give the same outcome, for
/// text whose trimmed form is ASCII.
pub proof fn lemma_parse_normal_form(s: Seq<char>)
    requires
        is_ascii_text(trim(s)),
    ensures
        forall|r: Result<Instrument, MarketDataError>|
            #[trigger] parse_canonical_outcome(normalize(s), r) == parse_canonical_outcome(s, r),
{
    lemma_normalize_idempotent(s);
}

/// Two separator-free pieces joined by one separator split back into them.
proof fn lemma_split_two(a: Seq<char>, sep: char, b: Seq<char>)
    requires
        is_separator(sep),
        forall|i: int| 0 <= i < a.len() ==> !is_separator(#[trigger] a[i]),
        forall|i: int| 0 <= i < b.len() ==> !is_separator(#[trigger] b[i]),
    ensures
        split_parts(a + seq![sep] + b) == seq![a, b],
    decreases b.len(),
{
    let s = a + seq![sep] + b;
    if b.len() == 0 {
        lemma_split_single(a);
        assert(s =~= a.push(sep));
        assert(s.drop_last() =~= a);
        assert(b =~= Seq::<char>::empty());
        assert(seq![a].push(Seq::<char>::empty()) =~= seq![a, b]);
    } else {
        let b1 = b.drop_last();
        assert(s.drop_last() =~= a + seq![sep] + b1);
        lemma_split_two(a, sep, b1);
        assert(!is_separator(b[b.len() - 1]));
        assert(b1.push(b.last()) =~= b);
        assert(seq![a, b1].update(1, b1.push(b.last())) =~= seq![a, b]);
    }
}

/// The exchange names, as they are written.
proof fn lemma_exchange_name_text(x: Seq<char>)
    requires
        x == "HOSE"@ || x == "HNX"@ || x == "UPCOM"@ || x == "HSX"@,
    ensures
        normalize(x) == x,
        ascii_upper(x) == x,
        x.len() > 0,
        !is_white(x[0]),
        is_ascii_text(x),
        forall|i: int| 0 <= i < x.len() ==> !is_separator(#[trigger] x[i]),
        forall|i: int| 0 <= i < x.len() ==> 'A' <= #[trigger] x[i] && x[i] <= 'Z',
{
    reveal_strlit("HOSE");
    reveal_strlit("HNX");
    reveal_strlit("UPCOM");
    reveal_strlit("HSX");
    assert(forall|i: int| 0 <= i < x.len() ==> 'A' <= #[trigger] x[i] && x[i] <= 'Z');
    assert(ascii_upper(x) =~= x);
    lemma_normalize_fixed(x);
}

/// Three ASCII letters normalise to their capitals.
proof fn lemma_code_text(c: Seq<char>)
    requires
        is_stock_code(c),
    ensures
        normalize(c) == ascii_upper(c),
        is_upper_code(ascii_upper(c)),
        ascii_upper(ascii_upper(c)) == ascii_upper(c),
        is_ascii_text(c),
        forall|i: int| 0 <= i < c.len() ==> !is_separator(#[trigger] c[i]),
        forall|i: int| 0 <= i < c.len() ==> !is_white(#[trigger] c[i]),
{
    assert(trim_start(c) == c);
    assert(trim_end(c) == c);
    assert(is_upper_code(ascii_upper(c)));
    assert(ascii_upper(ascii_upper(c)) =~= ascii_upper(c));
}

/// A stock ticker with an exchange name before or after it, joined by any
/// of `:`, `.` and `/`, reads as that ticker in capitals: the exchange names
/// HOSE, HNX, UPCOM and HSX are all set aside, in either position.
pub proof fn lemma_exchange_beside_ticker(x: Seq<char>, c: Seq<char>, sep: char)
    requires
        x == "HOSE"@ || x == "HNX"@ || x == "UPCOM"@ || x == "HSX"@,
        is_stock_code(c),
        ascii_upper(c) != "HNX"@ && ascii_upper(c) != "HSX"@,
        is_separator(sep),
    ensures
        stock_verdict(x + seq![sep] + c) == Ok::<Seq<char>, Seq<char>>(ascii_upper(c)),
        stock_verdict(c + seq![sep] + x) == Ok::<Seq<char>, Seq<char>>(ascii_upper(c)),
{
    reveal_strlit("HOSE");
    reveal_strlit("UPCOM");
    lemma_exchange_name_text(x);
    lemma_code_text(c);
    let big = ascii_upper(c);
    assert(big.len() == 3);
    assert(!is_exchange(big));
    assert(is_exchange(x));
    lemma_split_two(x, sep, c);
    lemma_split_two(c, sep, x);
    let p1 = seq![x, c];
    let p2 = seq![c, x];
    assert(p1.drop_last() =~= seq![x]);
    assert(seq![x].drop_last() =~= Seq::<Seq<char>>::empty());
    assert(seq![x].last() == x);
    assert(tickers(seq![x].drop_last()) == Seq::<Seq<char>>::empty());
    assert(tickers(seq![x]) =~= Seq::<Seq<char>>::empty());
    assert(tickers(p1) =~= seq![big]);
    assert(p2.drop_last() =~= seq![c]);
    assert(seq![c].drop_last() =~= Seq::<Seq<char>>::empty());
    assert(seq![c].last() == c);
    assert(tickers(seq![c].drop_last()) == Seq::<Seq<char>>::empty());
    assert(tickers(seq![c]) =~= seq![big]);
    assert(tickers(p2) =~= seq![big]);
    assert(is_stock_code(big));
    assert((x + seq![sep] + c).len() > 0);
    assert((c + seq![sep] + x).len() > 0);
}

/// An instrument text made of an exchange name, a separator and a stock
/// ticker is read as that stock, its ticker in capitals.
pub proof fn lemma_instrument_with_exchange(
    x: Seq<char>,
    c: Seq<char>,
    sep: char,
    r: Result<Instrument, MarketDataError>,
)
    requires
        x == "HOSE"@ || x == "HNX"@ || x == "UPCOM"@ || x == "HSX"@,
        is_stock_code(c),
        ascii_upper(c) != "HNX"@ && ascii_upper(c) != "HSX"@,
        is_separator(sep),
        parse_canonical_outcome(x + seq![sep] + c, r),
    ensures
        r matches Ok(Instrument::Stock(st)) && st.symbol@ == ascii_upper(c),
{
    reveal_strlit("HOSE");
    reveal_strlit("UPCOM");
    reveal_strlit("VN30");
    reveal_strlit("VNINDEX");
    reveal_strlit("VN30F");
    lemma_exchange_name_text(x);
    lemma_code_text(c);
    let big = ascii_upper(c);
    let s = x + seq![sep] + c;
    let u = x + seq![sep] + big;
    assert(is_ascii_text(s));
    assert(trim_start(s) == s);
    assert(s.last() == c[2]);
    assert(trim_end(s) == s);
    assert(ascii_upper(s) =~= u) by {
        assert forall|i: int| 0 <= i < s.len() implies ascii_upper(s)[i] == u[i] by {
            if i < x.len() {
                assert(ascii_upper_char(x[i]) == x[i]);
            } else if i > x.len() {
                assert(s[i] == c[i - x.len() - 1]);
            }
        }
    }
    assert(normalize(s) == u);
    lemma_code_text(big);
    lemma_split_two(x, sep, big);
    let p = seq![x, big];
    assert(p.drop_last() =~= seq![x]);
    assert(seq![x].drop_last() =~= Seq::<Seq<char>>::empty());
    assert(seq![x].last() == x);
    assert(tickers(seq![x].drop_last()) == Seq::<Seq<char>>::empty());
    assert(tickers(seq![x]) =~= Seq::<Seq<char>>::empty());
    assert(!is_exchange(big));
    assert(is_exchange(x));
    assert(tickers(p) =~= seq![big]);
    assert(core_text(u) == big);
    assert(!is_index_name(big));
    assert(!starts_with(big, "VN30F"@));
    lemma_exchange_beside_ticker(x, big, sep);
}

/// The future code `VN30F` followed by four ASCII characters `d`: with four
/// digits, it is accepted exactly when the last two read as a month from 1
/// to 12, the year being the number the first two read as; a non-digit
/// among the first two is a year error, and otherwise a non-digit among the
/// last two is a month error.
pub proof fn lemma_future_code(d: Seq<char>)
    requires
        d.len() == 4,
        is_ascii_text(d),
    ensures
        ({
            let v = "VN30F"@ + d;
            let digit = |c: char| '0' <= c && c <= '9';
            let y = (d[0] as int - 48) * 10 + (d[1] as int - 48);
            let m = (d[2] as int - 48) * 10 + (d[3] as int - 48);
            &&& (digit(d[0]) && digit(d[1]) && digit(d[2]) && digit(d[3]) && 1 <= m <= 12) ==> future_verdict(v)
                == Ok::<(u8, u8), Seq<char>>((y as u8, m as u8))
            &&& (digit(d[0]) && digit(d[1]) && digit(d[2]) && digit(d[3]) && !(1 <= m <= 12))
                ==> future_verdict(v) == Err::<(u8, u8), Seq<char>>("Month must be between 1 and 12"@)
            &&& !(digit(d[0]) && digit(d[1])) ==> future_verdict(v) == Err::<(u8, u8), Seq<char>>(
                "Year is invalid: invalid digit found in string"@,
            )
            &&& (digit(d[0]) && digit(d[1]) && !(digit(d[2]) && digit(d[3]))) ==> future_verdict(v)
                == Err::<(u8, u8), Seq<char>>("Month is invalid: invalid digit found in string"@)
        }),
{
    reveal_strlit("VN30F");
    let v = "VN30F"@ + d;
    assert(v.len() == 9);
    assert forall|i: int| 0 <= i < 9 implies '\0' <= #[trigger] v[i] && v[i] <= '\u{7f}' by {
        lemma_char_casts(v[i]);
        if i >= 5 {
            assert(v[i] == d[i - 5]);
        }
    }
    assert(is_ascii_chars(v));
    is_ascii_chars_encode_utf8(v);
    let b = encode_utf8(v);
    assert forall|i: int| 0 <= i < 9 implies (#[trigger] b[i]) as int == v[i] as int by {
        lemma_char_casts(v[i]);
    }
    assert(b.subrange(0, 5) =~= future_prefix_bytes()) by {
        assert(b[0] as int == 'V' as int);
        assert(b[1] as int == 'N' as int);
        assert(b[2] as int == '3' as int);
        assert(b[3] as int == '0' as int);
        assert(b[4] as int == 'F' as int);
    }
    assert(has_future_shape(b));
    assert(b[5] as int == d[0] as int && b[6] as int == d[1] as int);
    assert(b[7] as int == d[2] as int && b[8] as int == d[3] as int);
}

} // verus!
