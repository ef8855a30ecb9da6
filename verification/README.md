# jwksproxy

A proxy that publishes the token signing keys (JWKS) of a Kubernetes cluster
under a public host name, with an OpenID discovery document, and that can
attach a certificate (`x5c`) to every key that has none.

## Layout

- `src/` — the library, verified with Verus:
  - `text.rs`: whitespace trimming, character search, decimal parsing and
    printing, each proved against a spec over `Seq<char>`;
  - `config.rs`: configuration defaults, the `max_key_age` duration syntax,
    validation and the derived URLs, with the laws relating them;
  - `encoding.rs`, `json.rs`: base64 (with the proof that the URL-safe
    encoding is injective, which fixes what decoding gives) and the JSON
    calls the key-set handling makes, with their contracts;
  - `jwk.rs`: which members each key type needs and how a public key is
    built from them;
  - `certificates.rs`: drawing the ephemeral issuer key and attaching
    certificates it signs to a key set;
  - `upstream.rs`: decisions about what the API server answers, when the
    cached key set is refreshed, and what a refresh leaves in the cache.
- `app/` — the service around the library: command line, configuration
  file, HTTP client and server, cache.
- `tests/` — tests of the library on concrete values.
