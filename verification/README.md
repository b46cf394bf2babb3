# news_service

The verified core of a climate news service. It follows Bluesky accounts,
collects the links they share, scores those links into a news feed and
announces the next link in a post.

- `src/` is the library, verified with Verus: record parsing (`json`,
  `bluesky`, `starter_pack`, `twitter`, `urls`, `html`), link scoring
  (`news_feed`, `decimal`), slugs and post texts (`slug`, `post_text`,
  `tweet_text`), the decisions of the fetch and posting loops (`feed_fetch`,
  `cron`), the chat request that classifies links (`openai`), language
  detection (`language`) and the GraphQL errors and metadata (`api`).
- `tests/` runs the library on concrete values.
- `app/` is the program around it: the HTTP requests, the run's loops and the
  wire forms of the records.

## Time decay

A link's feed score is `url_score / (hours_since_first_created + 2)^gravity`,
as the comment above `decimal::time_decayed_url_score` writes it. The first
feed (`news_feed::time_decayed_url_score`, `first_feed_decayed_score`,
`news_feed_entries`) uses a gravity of 0.5: a score of 600 becomes 226 after
5 hours and 117 after 24 hours.

The three-argument `decimal::time_decayed_url_score` takes the gravity as an
argument and follows the formula exactly. With a gravity of 0.5 it gives the
same 226 and 117; with a gravity of 0.4 it gives 275 after 5 hours and 222
after 10 hours. An expectation of 226 and 117 for a gravity of 0.4 does not
fit the formula, so the tests hold it to the formula
(`time_decay_with_gravity_one_half`, `time_decay_with_gravity_four_tenths`)
and carry no such expectation.
