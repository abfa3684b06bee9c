# vpndetection

A client for the [VPNDetection](https://vpndetection.io) API: anonymity
detection covering VPNs, residential proxies, Tor nodes, hosting servers, CDNs
and relays. What it asks, how often it asks and what the answers mean is written
in Verus and proved.

- `src/` is the library. It opens no socket, reads no clock and touches no disk.
  A call is a value that says what to send, how long to wait and what to hand
  back, and that is told what came of each.
- `app/` is the async client around it, on tokio and reqwest.
- `tests/` run the library against origins and clocks that live in the test.

## Where things are

| Module | What it decides |
| --- | --- |
| `client`, `retry` | what a client is built from, one lookup, its retries and its cache |
| `batch`, `flight` | many addresses in chunks, and concurrent misses that share a request |
| `bogon`, `bogons`, `ipv6`, `address` | which addresses are answered locally, and how |
| `error`, `transport` | what a status, a header and a body mean |
| `database` | dataset requests, and a transfer that ends whole or not at all |
| `oauth` | the device flow, its refusals and its poll |
| `middleware` | the client address of a request, and whether to block it |
| `integration` | the tiers a staging run observes, and its recording proxy |
| `lookup`, `entitlement`, `json`, `number`, `text`, `time`, `index` | the values these are made of |

## Absent is not false

Every field beyond `ip` and `is_vpn` is an `Option`, because the plan decides
which of them the API sends. `None` means "not in your plan", which is not the
same answer as `Some(false)`, which means "checked, and no".
