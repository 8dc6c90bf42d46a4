# full-node

The decisions of a blockchain full node, verified with Verus.

- `src/` is the library. It reads chain specifications, and decides what the node prints, where it
  stores things, which secret key it uses, whether a database belongs to a chain, what each service
  is told, in which order everything is brought up, and what the informant line shows. It performs
  no input or output. Its contracts say what its functions return, except for which random bytes
  are drawn for a new key or for a keystore. The functions of other crates that it calls are behind
  small functions whose contracts are trusted.
- `app/` is the node around it: files, threads, timers, databases, signals, and the services behind
  a trait.
- `tests/` runs the library on concrete values, together with the crates that it calls.
