# Self-KVM

Share one keyboard and mouse across several machines on a desk. The *server* owns the keyboard and
mouse; when its cursor runs off the edge of a screen, input is grabbed and forwarded to the *client*
whose screen borders there. The clipboard follows, and files travel over a connection of their own.

The logic is a library written and proved in [Verus](https://github.com/verus-lang/verus): what a
function returns is stated in its contract, and what the functions do together is stated in the
public `lemma_` functions beside them. What an outside crate decides is not stated beyond what its
wrapper says: not the wording of its errors, nor what a TLS acceptor does with connections. The
library's values have one owner each; where two threads share one, `app/` does the sharing.

## Layout

- `src/` is the verified library.
  - The protocol: `codec`, `wire`, `field`, `opcode`, `message`, `keys`, `error`, and `transport` for
    the length-framed stream.
  - The state machines: `layout` (screens and edge crossings), `server`, `client`, `forwarding` (what
    the two do together), with `events` for their input.
  - What drives them: `handshake`, `controller` (server), `session` (client), `deck` (the control
    deck's grid), `config`.
  - Files: `file_transfer` (names, chunks, reassembly), `bulk` (the steps of a transfer), `sending`
    and `receiving` (an outbound and an inbound transfer as a whole), `directory` (what an inbound
    transfer does to the files that are there).
  - Trust on first use: `tls`.
  - The edge to the OS: `capture`, `injection`, `input`, `inject`, `hooks`, `clipboard`.
  - Helpers: `text`, `name_map`.
- `app/` is the program around it: sockets, disk, TLS handshakes, OS input and the control deck.
- `tests/` runs the library on concrete values.

## What is trusted

Calls into `rustls`, `rcgen`, `sha2` and parts of the standard library stand behind small functions
and specifications whose contracts are not proved. Each says in its documentation what it claims.
