# quiche_tls

The TLS side of a QUIC endpoint, with its behaviour stated in contracts and proved
by Verus.

- `src/crypto`: packet protection on top of AWS-LC and on top of a rustls provider.
- `src/tls`: contexts and handshakes on top of rustls, certificate checks for
  version 1 certificates and common names, session tickets, session stores and the
  registry of exported sessions, the key log.
- `src/packet.rs`: keys and handshake data of each packet number space.
- `src/quic_crypto.rs`: random bytes, HMAC and comparison for the connection layer.
- `tests`: tests against the real outside crates.
- `app`: files, the process-wide session registry, handshakes with the key log's writer,
  BoringSSL.

Calls into AWS-LC and rustls stand behind small functions whose contracts are
believed. What such a call returns has a name where it depends on its arguments
alone. What a rustls object holds (roots, a configuration, a connection) has a name
too, and the functions that make or change the object say what becomes of it.
