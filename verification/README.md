# wgg

A grocery-provider library for Jumbo and Picnic, verified with Verus: it normalises what the two
supermarkets' APIs answer (products, search results, promotions, prices, quantities, sale labels,
freshness, allergies, nutrition) into one model, indexes which products are on sale, and schedules
recurring jobs.

- `src/` is the verified library. Every function has a contract over spec functions and views; the
  calls into `regex`, `chrono`, `cron`, `md-5`, `hex` and `keyed_priority_queue` go through small
  trusted wrappers whose contracts say what those crates document.
  - `text`, `numbers`, `dates`, `patterns`: characters, decimal numbers, the proleptic Gregorian
    calendar and ISO weeks, and the regular expressions the parsers use.
  - `providers`: the normalised models, the parsers of Jumbo and Picnic data, searches and merges over
    providers, and the provider errors.
  - `jumbo`, `picnic`: the API models, configurations, ids, errors, credentials, the login and its
    second factor as a step machine, and the Picnic promotion pages.
  - `sale_resolver`: cache entries, cache actions, and the index from sub-lists to sales and from
    products to sub-lists, the kept promotions and sub-lists of each provider, with the laws that relate
    its operations.
  - `caching`: caches whose entries expire and that evict their oldest entry when full, for products,
    search products, searches and fetched sub-lists.
  - `scheduler`: schedules (cron or interval), jobs, and the runner's job queue and state.
- `tests/` runs the library on concrete values.
- `app/` is the networked side: HTTP clients, the JSON shapes of the APIs, the credentials file, the
  scheduler's event loop and the provider front that ties them to the library.
