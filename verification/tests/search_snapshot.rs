use apecast::search::{combine_results, forum_article, forum_articles, Article, ForumResponse, Topic};
use apecast::snapshot::{is_answer_complete, proposal_responses, proposal_url, proposal_urls, ProposalResponse, RawProposal};
use apecast::storage::{NewsEntry, Proposal};

fn article(body: &str) -> Article {
    Article {
        id: "1".to_string(),
        title: "t".to_string(),
        body: body.to_string(),
        url: "u".to_string(),
        thumb: "p".to_string(),
    }
}

#[test]
fn hint_without_query_takes_the_beginning() {
    assert_eq!(article("short body").hint(""), "short body");
    let long = "abcdefghijklmnopqrstuvwxyz0123456789ABCDEF";
    assert_eq!(article(long).hint(""), "abcdefghijklmnopqrstuvwxyz0123");
    let exactly = "abcdefghijklmnopqrstuvwxyz0123";
    assert_eq!(article(exactly).hint(""), exactly);
}

#[test]
fn hint_around_the_first_word_of_the_query() {
    let body = "The ApeCoin DAO voted today on a proposal about the treasury allocation for next year";
    // "proposal" starts at byte 33: the hint runs from 18 to 48.
    assert_eq!(article(body).hint("proposal treasury"), "ted today on a proposal about ...");
    assert_eq!(article(body).hint("The"), "The ApeCoin DAO...");
    assert_eq!(article("a b ape").hint("ape"), "a b ape...");
}

#[test]
fn hint_when_the_word_is_missing() {
    let body = "0123456789012345678901234567890123456789012345678901234567890123456789";
    assert_eq!(article(body).hint("zzz"), "01234567890123456789012345678901234567890123456789");
    assert_eq!(article("tiny").hint("zzz"), "tiny");
}

#[test]
fn hint_for_a_query_starting_with_space() {
    // The first word of " ape" is empty, which occurs at position 0.
    assert_eq!(article("0123456789abcdefghij").hint(" ape"), "0123456789abcde...");
}

#[test]
fn forum_topic_becomes_an_article() {
    let topic = Topic { id: 1234, title: "AIP-1".to_string(), slug: "aip-1-fund".to_string() };
    let a = forum_article(&topic);
    assert_eq!(a.id, "1234");
    assert_eq!(a.title, "AIP-1");
    assert_eq!(a.body, "AIP-1");
    assert_eq!(a.url, "https://forum.apecoin.com/t/aip-1-fund/1234");
    assert_eq!(a.thumb, "https://cdn.stamp.fyi/space/apecoin.eth?s=160&cb=ec19915e02892e80");
    let negative = forum_article(&Topic { id: -5, title: "x".to_string(), slug: "s".to_string() });
    assert_eq!(negative.url, "https://forum.apecoin.com/t/s/-5");
}

#[test]
fn forum_answer_without_topics_gives_nothing() {
    assert!(forum_articles(&ForumResponse { topics: None }).is_empty());
    let answer = ForumResponse {
        topics: Some(vec![
            Topic { id: 1, title: "one".to_string(), slug: "a".to_string() },
            Topic { id: 2, title: "two".to_string(), slug: "b".to_string() },
        ]),
    };
    let articles = forum_articles(&answer);
    assert_eq!(articles.len(), 2);
    assert_eq!(articles[0].url, "https://forum.apecoin.com/t/a/1");
    assert_eq!(articles[1].title, "two");
}

#[test]
fn forum_results_come_before_index_hits() {
    let all = combine_results(vec![article("forum")], vec![article("index1"), article("index2")]);
    let bodies: Vec<&str> = all.iter().map(|a| a.body.as_str()).collect();
    assert_eq!(bodies, vec!["forum", "index1", "index2"]);
}

fn raw(id: &str, state: Option<&str>) -> RawProposal {
    RawProposal {
        id: id.to_string(),
        title: format!("title {}", id),
        end: 1700000000,
        state: state.map(|s| s.to_string()),
        author: "0xauthor".to_string(),
    }
}

#[test]
fn hub_answer_completeness() {
    assert!(!is_answer_complete(&None));
    assert!(is_answer_complete(&Some(vec![])));
    assert!(is_answer_complete(&Some(vec![Some(raw("a", Some("active")))])));
    assert!(!is_answer_complete(&Some(vec![Some(raw("a", None))])));
    assert!(!is_answer_complete(&Some(vec![Some(raw("a", Some("active"))), None])));
}

#[test]
fn hub_answer_becomes_proposals() {
    let answer = Some(vec![Some(raw("0x1", Some("active"))), Some(raw("0x2", Some("closed")))]);
    let props = proposal_responses(&answer);
    assert_eq!(props.len(), 2);
    assert_eq!(props[0].id, "0x1");
    assert_eq!(props[0].title, "title 0x1");
    assert_eq!(props[0].state, "active");
    assert_eq!(props[1].state, "closed");
    assert_eq!(props[1].end, 1700000000);
    assert_eq!(props[1].author, "0xauthor");
}

#[test]
fn proposal_pages() {
    assert_eq!(proposal_url("0xabc"), "https://snapshot.org/#/apecoin.eth/proposal/0xabc");
    let props = vec![ProposalResponse {
        id: "7".to_string(),
        title: "t".to_string(),
        end: 0,
        state: "active".to_string(),
        author: "a".to_string(),
    }];
    assert_eq!(proposal_urls(&props), vec!["https://snapshot.org/#/apecoin.eth/proposal/7".to_string()]);
}

#[test]
fn stored_records_hold_their_fields() {
    let p = Proposal { id: "1".to_string(), title: "t".to_string() };
    let n = NewsEntry { url: "https://x".to_string() };
    assert_eq!(p.id, "1");
    assert_eq!(n.url, "https://x");
}
