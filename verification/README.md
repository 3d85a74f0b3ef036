# proxypass

A PAC-aware HTTP forwarding proxy for workstations behind an authenticating
corporate proxy: it picks the upstream proxy per request from a PAC script (or
a static address), answers `407` challenges with Negotiate (Kerberos/SPNEGO)
or Basic credentials from the OS keychain, and runs as a login service.

## Layout

- `src/` — the library, verified with Verus. Public functions carry
  `requires`/`ensures` contracts over spec functions and views; the two
  that run a PAC script in QuickJS (`run_pac_program`, `evaluate_pac`)
  promise nothing of the script's answer, which is the script's own.
  - `text.rs`, `order.rs` — character-level string operations and the
    order strings sort in.
  - `codec.rs` — Base64 (the `base64` crate), Unicode lower-casing and
    `Debug` quoting, behind trusted wrappers.
  - `auth.rs`, `auth_win.rs` — reading `Proxy-Authenticate`, building
    `Proxy-Authorization` values, Basic credentials.
  - `spnego.rs` — the cache of the last accepted authorization value.
  - `tunnel.rs` — the CONNECT handshake as a state machine: the caller
    performs each action and feeds back its outcome.
  - `pac.rs` — PAC results, the PAC engine's state (script freshness,
    reachability, per-host answers, network fingerprint) and QuickJS calls.
  - `proxy.rs` — `no_proxy`, request addresses, routing, forwarded requests
    (their authorization and retry steps) and error replies.
  - `config.rs`, `cli.rs`, `launchd.rs`, `service.rs` — configuration,
    command decisions and service descriptions.
- `app/` — the program: sockets, HTTP, GSSAPI, the keychain, files and
  processes, driving the library's state machines.
- `tests/` — tests of the library.

The laws the library keeps (the handshake always ends, a token is cached
only when a tunnel opens, a fresh PAC script is not fetched again, ...) are
public proof functions named `lemma_*` next to the code they speak of.
