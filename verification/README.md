# proxy_scanner

Scans a list of proxies. Each proxy is probed with a request that comes back with the address it
was seen from. A proxy is kept if the reply reports another address than the one seen without a
proxy, and if its own address is neither on the AbuseIPDB list nor in a network of the FireHOL
list. What GeoIP databases say of it goes into `Data/alive.txt` and into the table `proxies` of a
PostgreSQL database.

## Layout

- `src/` is the library, verified with Verus.
  - `text`: splitting, trimming, lines and decimal numbers.
  - `address`: IP addresses and networks.
  - `blocklist`: the two lists of unwanted addresses.
  - `response`: the request, and what a reply says.
  - `geo`: location and autonomous system of an address.
  - `proxy`: the lines of a list, the decision on a proxy, and the state of a scan.
  - `database`: the table, its rows, and the settings of the connection.
  - `laws`: what holds across these functions, as proof functions.
- `app/` is the program: files, sockets, TLS and PostgreSQL.
- `tests/` runs the library.

## What is taken on trust

Functions marked `external_body` and `assume_specification` items call into std, `ipnetwork`,
`maxminddb`, `serde_json` and `tokio_postgres`. The comment above each says which function it
calls and what is claimed of it. Where a result takes long to state, it has a name (an
uninterpreted spec function), and the contracts speak of that name.
