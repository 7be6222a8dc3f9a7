# ipinfo

A small web service that tells a client its address and what is known about
it: reverse DNS, autonomous system, whois network block and organisation,
location, and the HTTP facts of the request.

- `src/` is the verified library (Verus):
  - `text`: prefixes, whitespace trimming, pattern removal, decimal digits;
  - `http`: reading the proxy's headers, telling command-line clients apart;
  - `ip`: address text and the autonomous-system record;
  - `whois`: the whois protocol as a state machine (which server to ask, what
    to send, how to read the reply, when to follow a referral);
  - `cache`: a bounded LRU cache of whois records over `lru::LruCache`, with
    its laws (a stored record is read back; reads change no record; a write
    touches no other key but the evicted least recently used one).
- `app/` is the server around it: axum routes, TCP whois exchanges, MaxMind
  and DNS lookups, templates and JSON.
