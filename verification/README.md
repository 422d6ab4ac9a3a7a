# eproxy

A local HTTP forwarder for model APIs: it listens on loopback and relays each
request to an upstream HTTPS endpoint, dialing a chosen IP and port while TLS SNI
and the `Host` header stay on the upstream domain.

- `src/` is the verified library (Verus):
  - `config` — file layout, the `config.toml` model, resolution of listeners
    (defaults for name, SNI and `Host`, the https-only rule) and the template
    written on first run;
  - `proxy` — target URL construction, header forwarding, `X-Forwarded-For`,
    and how listener exits are reported;
  - `daemon` — the pid file format and process liveness;
  - `install` — the `systemd --user` unit text and value quoting;
  - `upstream_url` — the calls into the `url` crate;
  - `address`, `text` — socket addresses as plain values and string helpers.
- `app/` is the program: command line, files, logging, sockets, HTTP serving.
- `tests/` runs the library on concrete inputs.
