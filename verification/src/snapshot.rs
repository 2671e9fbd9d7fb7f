//! Governance proposals from the Snapshot hub.
use vstd::prelude::*;
use crate::text::concatenate;

verus! {

/// A proposal as the bot uses it.
pub struct ProposalResponse {
    pub id: String,
    pub title: String,
    /// End of the vote, in seconds since the Unix epoch.
    pub end: i64,
    pub state: String,
    pub author: String,
}

/// A proposal as the hub's query answers it, where the state may be missing.
pub struct RawProposal {
    pub id: String,
    pub title: String,
    pub end: i64,
    pub state: Option<String>,
    pub author: String,
}

/// The hub's answer holds a list, every entry of it is present and has a state.
pub open spec fn answer_complete(raw: Option<Vec<Option<RawProposal>>>) -> bool {
    match raw {
        Some(list) => forall|i: int|
            0 <= i < list@.len() ==> (#[trigger] list@[i] matches Some(p) && p.state is Some),
        None => false,
    }
}

/// `p` is the proposal `raw` with its state taken out of the option.
pub open spec fn from_raw(p: ProposalResponse, raw: RawProposal) -> bool {
    &&& p.id@ == raw.id@
    &&& p.title@ == raw.title@
    &&& p.end == raw.end
    &&& raw.state matches Some(s) && p.state@ == s@
    &&& p.author@ == raw.author@
}

/// Whether `answer_complete` holds, that is, whether `proposal_responses` accepts the answer.
pub fn is_answer_complete(raw: &Option<Vec<Option<RawProposal>>>) -> (b: bool)
    ensures
        b == answer_complete(*raw),
{
    match raw {
        Some(list) => {
            let n = list.len();
            let mut i: usize = 0;
            while i < n
                invariant
                    n == list@.len(),
                    *raw == Some(*list),
                    0 <= i <= n,
                    forall|j: int|
                        0 <= j < i ==> (#[trigger] list@[j] matches Some(p) && p.state is Some),
                decreases n - i,
            {
                match &list[i] {
                    Some(p) => {
                        if p.state.is_none() {
                            assert(!(list@[i as int] matches Some(p) && p.state is Some));
                            return false;
                        }
                    },
                    None => {
                        assert(!(list@[i as int] matches Some(p) && p.state is Some));
                        return false;
                    },
                }
                i = i + 1;
            }
            true
        },
        None => false,
    }
}

/// The proposals of a complete answer of the hub, in the hub's order.
pub fn proposal_responses(raw: &Option<Vec<Option<RawProposal>>>) -> (r: Vec<ProposalResponse>)
    requires
        answer_complete(*raw),
    ensures
        raw matches Some(list) && r@.len() == list@.len() && forall|i: int|
            0 <= i < r@.len() ==> (list@[i] matches Some(p) && from_raw(#[trigger] r@[i], p)),
{
    let mut out: Vec<ProposalResponse> = Vec::new();
    match raw {
        Some(list) => {
            let n = list.len();
            let mut i: usize = 0;
            while i < n
                invariant
                    n == list@.len(),
                    answer_complete(*raw),
                    *raw == Some(*list),
                    0 <= i <= n,
                    out@.len() == i,
                    forall|j: int|
                        0 <= j < i ==> (list@[j] matches Some(p) && from_raw(#[trigger] out@[j], p)),
                decreases n - i,
            {
                assert(list@[i as int] matches Some(p) && p.state is Some);
                match &list[i] {
                    Some(p) => {
                        match &p.state {
                            Some(state) => {
                                out.push(ProposalResponse {
                                    id: p.id.clone(),
                                    title: p.title.clone(),
                                    end: p.end,
                                    state: state.clone(),
                                    author: p.author.clone(),
                                });
                            },
                            None => {},
                        }
                    },
                    None => {},
                }
                i = i + 1;
            }
        },
        None => {},
    }
    out
}

/// The page of a proposal on the Snapshot site.
pub open spec fn proposal_url_spec(id: Seq<char>) -> Seq<char> {
    "https://snapshot.org/#/apecoin.eth/proposal/"@ + id
}

/// A proposal's page is the space's proposal address followed by the whole id.
pub proof fn lemma_proposal_page(id: Seq<char>)
    ensures
        proposal_url_spec(id) == "https://snapshot.org/#/apecoin.eth/proposal/"@ + id,
        proposal_url_spec(id).len() == "https://snapshot.org/#/apecoin.eth/proposal/"@.len() + id.len(),
        proposal_url_spec(id).skip("https://snapshot.org/#/apecoin.eth/proposal/"@.len() as int) == id,
{
    assert(proposal_url_spec(id).skip("https://snapshot.org/#/apecoin.eth/proposal/"@.len() as int) =~= id);
}

/// A proposal built from the hub's entry keeps its id, title, end, author and the
/// state the entry holds; an answer is usable when it holds a list whose entries
/// are all present with a state.
pub proof fn lemma_proposal_from_entry(p: ProposalResponse, raw: RawProposal, answer: Option<Vec<Option<RawProposal>>>)
    ensures
        from_raw(p, raw) <==> (p.id@ == raw.id@ && p.title@ == raw.title@ && p.end == raw.end && p.author@
            == raw.author@ && raw.state is Some && p.state@ == raw.state->0@),
        answer is None ==> !answer_complete(answer),
        answer matches Some(list) ==> (answer_complete(answer) <==> forall|i: int|
            0 <= i < list@.len() ==> list@[i] is Some && list@[i]->0.state is Some),
{
    if let Some(list) = answer {
        if answer_complete(answer) {
            assert forall|i: int| 0 <= i < list@.len() implies list@[i] is Some && list@[i]->0.state is Some by {
                assert(list@[i] matches Some(q) && q.state is Some);
            }
        }
    }
}

/// The page of the proposal with the given id.
pub fn proposal_url(id: &str) -> (r: String)
    ensures
        r@ == proposal_url_spec(id@),
{
    concatenate("https://snapshot.org/#/apecoin.eth/proposal/", id)
}

/// The pages of the given proposals, in order.
pub fn proposal_urls(proposals: &Vec<ProposalResponse>) -> (r: Vec<String>)
    ensures
        r@.len() == proposals@.len(),
        forall|i: int| 0 <= i < r@.len() ==> #[trigger] r@[i]@ == proposal_url_spec(proposals@[i].id@),
{
    let mut out: Vec<String> = Vec::new();
    let n = proposals.len();
    let mut i: usize = 0;
    while i < n
        invariant
            n == proposals@.len(),
            0 <= i <= n,
            out@.len() == i,
            forall|j: int| 0 <= j < i ==> #[trigger] out@[j]@ == proposal_url_spec(proposals@[j].id@),
        decreases n - i,
    {
        out.push(proposal_url(proposals[i].id.as_str()));
        i = i + 1;
    }
    out
}

} // verus!
