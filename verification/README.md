# apecast

The logic of a Telegram bot that follows the ApeCoin ecosystem, as a Verus-verified
library, with the program around it.

- `src/` — the verified library:
  - `text` — decimal rendering, joining, splitting, searching, byte-exact slicing;
  - `etherscan` — the balance request and how its answer is read;
  - `search` — forum articles and the hint shown for each;
  - `snapshot` — governance proposals and their pages;
  - `storage` — stored records;
  - `monitor` — which article a news page points to, announcements, and the price
    monitor's decisions;
  - `exchanges` — gathering the exchanges' quotes;
  - `telegram` — dialogue state, keyboards, button presses and replies.
- `tests/` — tests of the library on concrete values.
- `app/` — the bot itself: Telegram, MongoDB, Meilisearch, HTTP, the exchange feed,
  and the floating-point price arithmetic.
