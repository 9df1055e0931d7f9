# redpanda

The decisions of a Redpanda transport, verified with Verus: the Kafka wire
protocol to a Redpanda broker, with the Admin API — brokers, cluster
configuration, maintenance — consulted before a Location takes work.

- `src/` is the library. It asks and judges; it opens no connection.
  - `admin`: what the three calls of the Admin API ask, and what a reply means.
  - `session`: the far end of the Admin API, answering from memory.
  - `transport`: the transport's settings, the steps of a receive, where a
    record is sent, and how records arrive.
  - `json`: JSON documents, and what is relied on of serde_json.
  - `text`: pieces, words and decimal numbers.
  - `fault`: what goes wrong, and whether it is worth another try.
  - `laws`: what holds across these, proved.
- `app/` puts sockets, HTTP and the Kafka client around the library. It needs
  the `transport`, `net` and `kafka` crates of the estate.
- `tests/` runs the library on concrete values.
