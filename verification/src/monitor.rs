//! The watchers: which news article a site's page points to, which proposals and
//! contributions are announced, and how the price monitor reacts to its events.
use vstd::prelude::*;
use crate::text::{concatenate, decimal, i64_to_decimal};

verus! {

/// What the HTML scraper finds in a page: `None` when `selector` is not a valid CSS
/// selector; otherwise the `href` attribute of the first matching element that the
/// parsed page yields (`Some(None)` when no element matches or the first one has no `href`).
pub uninterp spec fn first_href(html: Seq<char>, selector: Seq<char>) -> Option<Option<Seq<char>>>;

/// Calls scraper: parses `selector` with `Selector::parse`, the page with
/// `Html::parse_document`, and reads the `href` of the first match of `select`.
/// The contract only names the result (`first_href`); what HTML parsing and
/// selector matching do is left to scraper.
#[verifier::external_body]
fn select_first_href(html: &str, selector: &str) -> (r: Option<Option<String>>)
    ensures
        match r {
            None => first_href(html@, selector@) is None,
            Some(None) => first_href(html@, selector@) == Some(None::<Seq<char>>),
            Some(Some(h)) => first_href(html@, selector@) == Some(Some(h@)),
        },
{
    match scraper::Selector::parse(selector) {
        Ok(sel) => {
            let document = scraper::Html::parse_document(html);
            match document.select(&sel).next() {
                Some(element) => Some(element.value().attr("href").map(String::from)),
                None => Some(None),
            }
        },
        Err(_) => None,
    }
}

/// A news site whose search page is scraped for the latest ApeCoin article.
#[derive(Clone, Copy, PartialEq, Eq, Structural, Debug)]
pub enum NewsSite {
    BeInCrypto,
    CoinTelegraph,
}

/// A page could not be read.
#[derive(Clone, Copy, PartialEq, Eq, Structural, Debug)]
pub enum PageError {
    /// The site's selector is not a valid CSS selector.
    InvalidSelector,
}

/// The page of a site that lists its latest ApeCoin articles.
pub open spec fn site_page_spec(site: NewsSite) -> Seq<char> {
    match site {
        NewsSite::BeInCrypto => "https://beincrypto.com/?s=apecoin"@,
        NewsSite::CoinTelegraph => "https://cointelegraph.com/tags/apecoin"@,
    }
}

/// The CSS selector of the links to articles on a site's page.
pub open spec fn site_selector_spec(site: NewsSite) -> Seq<char> {
    match site {
        NewsSite::BeInCrypto => "a.text-dark-grey-700"@,
        NewsSite::CoinTelegraph => "a.post-card-inline__title-link"@,
    }
}

/// The address of an article from the link found on the site's page.
pub open spec fn article_url_spec(site: NewsSite, href: Seq<char>) -> Seq<char> {
    match site {
        NewsSite::BeInCrypto => href,
        NewsSite::CoinTelegraph => "https://cointelegraph.com"@ + href,
    }
}

/// The page that lists a site's latest ApeCoin articles.
pub fn site_page(site: NewsSite) -> (r: &'static str)
    ensures
        r@ == site_page_spec(site),
{
    match site {
        NewsSite::BeInCrypto => "https://beincrypto.com/?s=apecoin",
        NewsSite::CoinTelegraph => "https://cointelegraph.com/tags/apecoin",
    }
}

/// The selector of the links to articles on a site's page.
pub fn site_selector(site: NewsSite) -> (r: &'static str)
    ensures
        r@ == site_selector_spec(site),
{
    match site {
        NewsSite::BeInCrypto => "a.text-dark-grey-700",
        NewsSite::CoinTelegraph => "a.post-card-inline__title-link",
    }
}

/// The address of the article behind a link on a site's page.
pub fn article_url(site: NewsSite, href: &str) -> (r: String)
    ensures
        r@ == article_url_spec(site, href@),
{
    match site {
        NewsSite::BeInCrypto => String::from_str(href),
        NewsSite::CoinTelegraph => concatenate("https://cointelegraph.com", href),
    }
}

/// What a page's first link comes to: the article's address, no article when the
/// page holds no link, or an error when the selector could not be used.
pub open spec fn article_from_match_spec(site: NewsSite, found: Option<Option<Seq<char>>>) -> Result<
    Option<Seq<char>>,
    PageError,
> {
    match found {
        None => Err(PageError::InvalidSelector),
        Some(None) => Ok(None),
        Some(Some(href)) => Ok(Some(article_url_spec(site, href))),
    }
}

/// The view of a scraper finding.
pub open spec fn found_view(found: Option<Option<String>>) -> Option<Option<Seq<char>>> {
    match found {
        None => None,
        Some(None) => Some(None),
        Some(Some(h)) => Some(Some(h@)),
    }
}

/// The view of an article outcome.
pub open spec fn outcome_view(r: Result<Option<String>, PageError>) -> Result<Option<Seq<char>>, PageError> {
    match r {
        Ok(Some(u)) => Ok(Some(u@)),
        Ok(None) => Ok(None),
        Err(e) => Err(e),
    }
}

/// The article a site's page points to, given what was found on it.
pub fn article_from_match(site: NewsSite, found: Option<Option<String>>) -> (r: Result<Option<String>, PageError>)
    ensures
        outcome_view(r) == article_from_match_spec(site, found_view(found)),
{
    match found {
        None => Err(PageError::InvalidSelector),
        Some(None) => Ok(None),
        Some(Some(href)) => Ok(Some(article_url(site, href.as_str()))),
    }
}

/// The latest article a site's page (its HTML) points to.
pub fn latest_article(site: NewsSite, html: &str) -> (r: Result<Option<String>, PageError>)
    ensures
        outcome_view(r) == article_from_match_spec(site, first_href(html@, site_selector_spec(site))),
{
    let found = select_first_href(html, site_selector(site));
    article_from_match(site, found)
}

/// The latest CoinTelegraph article is the link of the first element of class
/// `post-card-inline__title-link` (an `a`, wherever it is nested), made absolute on
/// cointelegraph.com; the latest BeInCrypto article is the link of the first `a` of
/// class `text-dark-grey-700`, as it is. No link means no article.
pub proof fn lemma_latest_article_links(html: Seq<char>)
    ensures
        article_from_match_spec(NewsSite::CoinTelegraph, first_href(html, site_selector_spec(NewsSite::CoinTelegraph)))
            == match first_href(html, "a.post-card-inline__title-link"@) {
            None => Err(PageError::InvalidSelector),
            Some(None) => Ok(None),
            Some(Some(href)) => Ok(Some("https://cointelegraph.com"@ + href)),
        },
        article_from_match_spec(NewsSite::BeInCrypto, first_href(html, site_selector_spec(NewsSite::BeInCrypto)))
            == match first_href(html, "a.text-dark-grey-700"@) {
            None => Err(PageError::InvalidSelector),
            Some(None) => Ok(None),
            Some(Some(href)) => Ok(Some(href)),
        },
{
}

/// The pages scraped for the latest articles.
pub proof fn lemma_site_pages()
    ensures
        site_page_spec(NewsSite::BeInCrypto) == "https://beincrypto.com/?s=apecoin"@,
        site_page_spec(NewsSite::CoinTelegraph) == "https://cointelegraph.com/tags/apecoin"@,
{
}

/// The address of the CoinDesk article behind the link its search returns.
pub fn coindesk_article_url(link: &str) -> (r: String)
    ensures
        r@ == "https://www.coindesk.com"@ + link@,
{
    concatenate("https://www.coindesk.com", link)
}

/// The key under which a ThankApe listing is remembered as seen.
pub fn thrivecoin_key(listing_id: i32) -> (r: String)
    ensures
        r@ == "thrivecoin-ape/"@ + decimal(listing_id as int),
{
    let id = i64_to_decimal(listing_id as i64);
    concatenate("thrivecoin-ape/", id.as_str())
}

/// The announcement of a new ThankApe contribution.
pub fn thrivecoin_announcement(name: &str) -> (r: String)
    ensures
        r@ == "New thankape contribution available: "@ + name@
            + " https://thankape.com/seasons/thankape-season-3 "@,
{
    let mut s = concatenate("New thankape contribution available: ", name);
    s.append(" https://thankape.com/seasons/thankape-season-3 ");
    s
}

/// The new article of a crawler's outcome, if it has one.
pub open spec fn news_of(r: Result<Option<String>, String>) -> Option<String> {
    match r {
        Ok(Some(u)) => Some(u),
        _ => None,
    }
}

/// The articles that the crawlers found new, in the crawlers' order; failed crawlers
/// and crawlers with nothing new are passed over.
pub fn collect_news(results: &Vec<Result<Option<String>, String>>) -> (r: Vec<String>)
    ensures
        r@ == results@.filter_map(|x: Result<Option<String>, String>| news_of(x)),
{
    let ghost f = |x: Result<Option<String>, String>| news_of(x);
    let mut out: Vec<String> = Vec::new();
    let n = results.len();
    let mut i: usize = 0;
    while i < n
        invariant
            n == results@.len(),
            0 <= i <= n,
            f == (|x: Result<Option<String>, String>| news_of(x)),
            out@ == results@.take(i as int).filter_map(f),
        decreases n - i,
    {
        assert(results@.take(i + 1).drop_last() =~= results@.take(i as int));
        assert(results@.take(i + 1).last() == results@[i as int]);
        match &results[i] {
            Ok(Some(url)) => {
                out.push(url.clone());
            },
            _ => {},
        }
        assert(out@ =~= results@.take(i + 1).filter_map(f));
        i = i + 1;
    }
    assert(results@.take(n as int) =~= results@);
    out
}

/// Every article that `collect_news` returns was reported new by one of the crawlers.
pub proof fn lemma_news_come_from_crawlers(results: Seq<Result<Option<String>, String>>, url: String)
    requires
        results.filter_map(|x: Result<Option<String>, String>| news_of(x)).contains(url),
    ensures
        exists|i: int| 0 <= i < results.len() && #[trigger] results[i] == Ok::<Option<String>, String>(Some(url)),
{
    let f = |x: Result<Option<String>, String>| news_of(x);
    results.lemma_filter_map_contains(f, url);
    let t = choose|t: Result<Option<String>, String>| #[trigger] results.contains(t) && f(t) == Some(url);
    let i = choose|i: int| 0 <= i < results.len() && results[i] == t;
    assert(results[i] == Ok::<Option<String>, String>(Some(url)));
}

/// The broadcast that announces a new proposal page.
pub fn proposal_announcement(url: &str) -> (r: String)
    ensures
        r@ == "New proposal! Check it out "@ + url@,
{
    concatenate("New proposal! Check it out ", url)
}

/// The news gathered from one more crawler: its article is added at the end when it
/// found a new one, and nothing changes when it found nothing or failed.
pub proof fn lemma_collect_news_step(results: Seq<Result<Option<String>, String>>, r: Result<Option<String>, String>)
    ensures
        Seq::<Result<Option<String>, String>>::empty().filter_map(|x: Result<Option<String>, String>| news_of(x))
            == Seq::<String>::empty(),
        results.push(r).filter_map(|x: Result<Option<String>, String>| news_of(x)) == match r {
            Ok(Some(u)) => results.filter_map(|x: Result<Option<String>, String>| news_of(x)).push(u),
            _ => results.filter_map(|x: Result<Option<String>, String>| news_of(x)),
        },
{
    let f = |x: Result<Option<String>, String>| news_of(x);
    assert(results.push(r).drop_last() =~= results);
    assert(results.push(r).filter_map(f) =~= match r {
        Ok(Some(u)) => results.filter_map(f).push(u),
        _ => results.filter_map(f),
    });
}

/// The items whose flag is set, in order.
pub open spec fn flagged(items: Seq<String>, flags: Seq<bool>) -> Seq<String>
    decreases items.len(),
{
    if items.len() == 0 {
        Seq::empty()
    } else {
        let rest = flagged(items.drop_last(), flags.take(items.len() - 1));
        if flags[items.len() - 1] {
            rest.push(items.last())
        } else {
            rest
        }
    }
}

/// One more page: it is announced, after the others, exactly when it was crawled
/// for the first time.
pub proof fn lemma_flagged_step(items: Seq<String>, flags: Seq<bool>, x: String, b: bool)
    requires
        items.len() == flags.len(),
    ensures
        flagged(Seq::empty(), Seq::empty()) == Seq::<String>::empty(),
        flagged(items.push(x), flags.push(b)) == if b { flagged(items, flags).push(x) } else { flagged(items, flags) },
{
    assert(items.push(x).drop_last() =~= items);
    assert(flags.push(b).take(items.len() as int) =~= flags);
}

/// The proposal pages that were crawled for the first time (`first_time[i]` tells
/// whether `urls[i]` was), in order: those are announced.
pub fn newly_crawled(urls: &Vec<String>, first_time: &Vec<bool>) -> (r: Vec<String>)
    requires
        urls@.len() == first_time@.len(),
    ensures
        r@ == flagged(urls@, first_time@),
{
    let mut out: Vec<String> = Vec::new();
    let n = urls.len();
    let mut i: usize = 0;
    while i < n
        invariant
            n == urls@.len(),
            n == first_time@.len(),
            0 <= i <= n,
            out@ == flagged(urls@.take(i as int), first_time@.take(i as int)),
        decreases n - i,
    {
        assert(urls@.take(i + 1).drop_last() =~= urls@.take(i as int));
        assert(first_time@.take(i + 1).take(i as int) =~= first_time@.take(i as int));
        if first_time[i] {
            out.push(urls[i].clone());
        }
        i = i + 1;
    }
    assert(urls@.take(n as int) =~= urls@);
    assert(first_time@.take(n as int) =~= first_time@);
    out
}


/// Calls `crypto_com_exchange::candlestick` with `TimeFrame::FourHours`. The crate's
/// source formats "candlestick.{time_frame}.{instrument_name}" and displays the
/// four-hour frame as "4h"; the contract states that string.
#[verifier::external_body]
fn four_hour_candlestick(instrument: &str) -> (r: String)
    ensures
        r@ == "candlestick.4h."@ + instrument@,
{
    crypto_com_exchange::candlestick(crypto_com_exchange::TimeFrame::FourHours, instrument)
}

/// The exchange channel of four-hour candlesticks of an instrument.
pub fn price_channel(instrument: &str) -> (r: String)
    ensures
        r@ == "candlestick.4h."@ + instrument@,
{
    four_hour_candlestick(instrument)
}

/// The channels the price monitor subscribes to when it connects.
pub fn monitored_channels() -> (r: Vec<String>)
    ensures
        r@.len() == 1,
        r@[0]@ == "candlestick.4h."@ + "APE_USDT"@,
{
    let mut v: Vec<String> = Vec::new();
    v.push(price_channel("APE_USDT"));
    v
}

/// Seconds a silenced channel stays silent before it is subscribed again.
pub const SILENCE_SECS: u64 = 14400;

/// What happens to the price monitor while it listens to the exchange.
pub enum MonitorEvent {
    /// The application asks the monitor to stop.
    ExitRequested,
    /// The connection to the exchange ended, with an error or peacefully.
    ConnectionEnded { failed: bool },
    /// A channel has just been reported on and is to be silenced for a while.
    Silence(String),
    /// A silenced channel's time is over.
    Resume(String),
}

/// What the monitor does in answer.
pub enum MonitorAction {
    /// Disconnect from the exchange.
    Disconnect,
    /// Connect again and subscribe anew.
    Reconnect,
    /// Nothing more: the connection ended peacefully.
    Finish,
    /// Unsubscribe from the channel, and send it back as `Resume` after the delay.
    Unsubscribe { channel: String, resume_after_secs: u64 },
    /// Subscribe to the channel again.
    Subscribe(String),
}

/// The monitor's loops: whether it keeps running, and whether it keeps listening
/// on the current connection.
pub struct MonitorState {
    pub running: bool,
    pub listening: bool,
}

/// The monitor's decision on an event received while it listens.
pub fn monitor_step(event: MonitorEvent) -> (r: (MonitorState, MonitorAction))
    ensures
        match event {
            MonitorEvent::ExitRequested => !r.0.running && !r.0.listening && r.1 is Disconnect,
            MonitorEvent::ConnectionEnded { failed } => r.0.running == failed && !r.0.listening
                && if failed { r.1 is Reconnect } else { r.1 is Finish },
            MonitorEvent::Silence(c) => r.0.running && r.0.listening && (r.1 matches MonitorAction::Unsubscribe { channel, resume_after_secs }
                && channel == c && resume_after_secs == SILENCE_SECS),
            MonitorEvent::Resume(c) => r.0.running && r.0.listening && r.1 == MonitorAction::Subscribe(c),
        },
{
    match event {
        MonitorEvent::ExitRequested => (MonitorState { running: false, listening: false }, MonitorAction::Disconnect),
        MonitorEvent::ConnectionEnded { failed } => {
            if failed {
                (MonitorState { running: true, listening: false }, MonitorAction::Reconnect)
            } else {
                (MonitorState { running: false, listening: false }, MonitorAction::Finish)
            }
        },
        MonitorEvent::Silence(channel) => (
            MonitorState { running: true, listening: true },
            MonitorAction::Unsubscribe { channel, resume_after_secs: SILENCE_SECS },
        ),
        MonitorEvent::Resume(channel) => (
            MonitorState { running: true, listening: true },
            MonitorAction::Subscribe(channel),
        ),
    }
}

} // verus!
