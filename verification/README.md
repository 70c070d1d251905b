# vash_server

A tag-aware cache server that speaks three protocols on one port: its own (VCP),
memcached's text and meta dialects, and Redis's.

`src/` is the server's logic, written in Verus: what each function returns or
changes is stated in its contract and proved. `app/` is the program around it: the
command line, the sockets, the files, and the glue to the storage engine
(`vash_store`), the wire codec (`vash_proto`), the types those two share
(`vash_core`) and the peer client (`vash_client`).

## The library

| Module | What it decides |
| --- | --- |
| `text` | Decimal and octal rendering, words, lines, trimming |
| `credentials`, `auth` | The credential file, the table, and who a connection is |
| `config`, `server` | Settings, the rules they have to meet, the connection budget |
| `protocol`, `domain` | The commands and replies that all dialects share |
| `dispatch` | What a command asks of the store, and what its answer means |
| `vcp`, `memcached`, `resp` | What each dialect makes of a command and a reply |
| `scan` | Resumable positions of a Redis `SCAN` |
| `conn`, `connections` | What a connection does with what arrived, and who is connected |
| `tags`, `cluster` | Tag generations, how they converge, and the exchange with a peer |
| `metrics`, `stats` | Counters, the Prometheus page, and the rows of `stats` and `INFO` |
| `tls` | Certificates and keys: reading them, when a chain expires, whom it names |
| `admin` | The pages of the admin endpoint |
| `state` | What every connection shares |

A command is executed in three moves: `dispatch::plan` says what to ask of the
store, the program asks it, and `dispatch::settle` and `dispatch::count` say what
to answer and what to record. A connection and an exchange with a peer are state
machines of the same kind: the program performs what they ask for and hands back
what happened.

## What is taken on trust

The functions marked `external_body` call into `sha2`, `subtle`, `getrandom`,
`rustls-pemfile`, `rustls-webpki` and the standard library's `Debug` rendering of
strings. Each says above its contract what is claimed of the function it calls.
`text` states what `String::push` of the standard library does, and `credentials`
declares the error type of `getrandom`.
Floating point stays outside the library: where a value is a float, the library
holds its bit pattern.
