use apecast::exchanges::successful;
use apecast::monitor::{
    article_from_match, article_url, coindesk_article_url, collect_news, latest_article, monitor_step,
    monitored_channels, newly_crawled, price_channel, site_page, site_selector, thrivecoin_announcement,
    thrivecoin_key, MonitorAction, MonitorEvent, NewsSite, PageError, SILENCE_SECS,
};

const BEINCRYPTO_PAGE: &str = r#"<html><body>
<div><a class="nav" href="/about">About</a></div>
<div class="results">
  <a class="text-dark-grey-700 title" href="https://beincrypto.com/apecoin-rallies/">ApeCoin rallies</a>
  <a class="text-dark-grey-700 title" href="https://beincrypto.com/older-news/">Older</a>
</div></body></html>"#;

const COINTELEGRAPH_PAGE: &str = r#"<html><body>
<ul><li><a class="post-card-inline__title-link" href="/news/apecoin-dao-vote">Vote</a></li>
<li><a class="post-card-inline__title-link" href="/news/second">Second</a></li></ul>
</body></html>"#;

#[test]
fn beincrypto_latest_article() {
    assert_eq!(
        latest_article(NewsSite::BeInCrypto, BEINCRYPTO_PAGE),
        Ok(Some("https://beincrypto.com/apecoin-rallies/".to_string()))
    );
}

#[test]
fn cointelegraph_latest_article() {
    assert_eq!(
        latest_article(NewsSite::CoinTelegraph, COINTELEGRAPH_PAGE),
        Ok(Some("https://cointelegraph.com/news/apecoin-dao-vote".to_string()))
    );
}

#[test]
fn page_without_articles() {
    assert_eq!(latest_article(NewsSite::CoinTelegraph, BEINCRYPTO_PAGE), Ok(None));
    assert_eq!(latest_article(NewsSite::BeInCrypto, "<html></html>"), Ok(None));
    let no_href = r#"<a class="post-card-inline__title-link">x</a>"#;
    assert_eq!(latest_article(NewsSite::CoinTelegraph, no_href), Ok(None));
}

#[test]
fn article_from_what_was_found() {
    assert_eq!(article_from_match(NewsSite::BeInCrypto, None), Err(PageError::InvalidSelector));
    assert_eq!(article_from_match(NewsSite::BeInCrypto, Some(None)), Ok(None));
    assert_eq!(
        article_from_match(NewsSite::CoinTelegraph, Some(Some("/x".to_string()))),
        Ok(Some("https://cointelegraph.com/x".to_string()))
    );
}

#[test]
fn site_addresses() {
    assert_eq!(site_page(NewsSite::BeInCrypto), "https://beincrypto.com/?s=apecoin");
    assert_eq!(site_page(NewsSite::CoinTelegraph), "https://cointelegraph.com/tags/apecoin");
    assert_eq!(site_selector(NewsSite::BeInCrypto), "a.text-dark-grey-700");
    assert_eq!(article_url(NewsSite::BeInCrypto, "https://b/x"), "https://b/x");
    assert_eq!(coindesk_article_url("/markets/ape"), "https://www.coindesk.com/markets/ape");
}

#[test]
fn thankape_listing() {
    assert_eq!(thrivecoin_key(321), "thrivecoin-ape/321");
    assert_eq!(
        thrivecoin_announcement("Write a thread"),
        "New thankape contribution available: Write a thread https://thankape.com/seasons/thankape-season-3 "
    );
}

#[test]
fn news_keeps_only_new_articles() {
    let results = vec![
        Ok(Some("a".to_string())),
        Err("timeout".to_string()),
        Ok(None),
        Ok(Some("b".to_string())),
    ];
    assert_eq!(collect_news(&results), vec!["a".to_string(), "b".to_string()]);
    assert!(collect_news(&vec![]).is_empty());
}

#[test]
fn proposals_announced_once() {
    let urls = vec!["u1".to_string(), "u2".to_string(), "u3".to_string()];
    assert_eq!(newly_crawled(&urls, &vec![true, false, true]), vec!["u1".to_string(), "u3".to_string()]);
    assert!(newly_crawled(&urls, &vec![false, false, false]).is_empty());
}

#[test]
fn price_channels() {
    assert_eq!(price_channel("APE_USDT"), "candlestick.4h.APE_USDT");
    assert_eq!(monitored_channels(), vec!["candlestick.4h.APE_USDT".to_string()]);
}

#[test]
fn monitor_decisions() {
    let (s, a) = monitor_step(MonitorEvent::ExitRequested);
    assert!(!s.running && !s.listening);
    assert!(matches!(a, MonitorAction::Disconnect));
    let (s, a) = monitor_step(MonitorEvent::ConnectionEnded { failed: true });
    assert!(s.running && !s.listening);
    assert!(matches!(a, MonitorAction::Reconnect));
    let (s, a) = monitor_step(MonitorEvent::ConnectionEnded { failed: false });
    assert!(!s.running && !s.listening);
    assert!(matches!(a, MonitorAction::Finish));
    let (s, a) = monitor_step(MonitorEvent::Silence("c".to_string()));
    assert!(s.running && s.listening);
    match a {
        MonitorAction::Unsubscribe { channel, resume_after_secs } => {
            assert_eq!(channel, "c");
            assert_eq!(resume_after_secs, 14400);
            assert_eq!(SILENCE_SECS, 3600 * 4);
        }
        _ => panic!("expected an unsubscription"),
    }
    let (s, a) = monitor_step(MonitorEvent::Resume("c".to_string()));
    assert!(s.running && s.listening);
    assert!(matches!(a, MonitorAction::Subscribe(c) if c == "c"));
}

#[test]
fn only_answering_exchanges_are_kept() {
    let results: Vec<Result<u32, String>> = vec![Ok(1), Err("down".to_string()), Ok(3)];
    assert_eq!(successful(results), vec![1, 3]);
    let none: Vec<Result<u32, String>> = vec![Err("a".to_string())];
    assert!(successful(none).is_empty());
}

#[test]
fn announcements_and_requests() {
    assert_eq!(
        apecast::monitor::proposal_announcement("https://snapshot.org/#/apecoin.eth/proposal/0x1"),
        "New proposal! Check it out https://snapshot.org/#/apecoin.eth/proposal/0x1"
    );
    assert_eq!(
        apecast::search::forum_search_url("grants"),
        "https://forum.apecoin.com/search/query?term=grants"
    );
}
