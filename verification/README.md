# webscout

The verified core of a headless web-fetching engine that presents itself as
an ordinary browser (Chrome, Firefox or Safari) and recognises when a site
answers with a bot challenge instead of a page.

- `src/` is the library, written in Verus and proved:
  - `http::detect` classifies a response (rate limit, DataDome, PerimeterX,
    Imperva, Cloudflare, hCaptcha, reCAPTCHA, JavaScript check, block);
  - `http::cache` decides from `Cache-Control` whether and for how long a
    response is cached, and serves it back while it is fresh;
  - `http::client` derives the default request headers from an identity and
    builds the `Cookie` header line; `http::transport` gives the cipher-suite
    order, the ALPN protocols and the HTTP/2 windows that the client uses;
  - `identity` holds the browser profiles; `session` holds sessions and the
    store that hands out one session per id; `delay` reads delay ranges;
  - `text` holds the proved string helpers; `http::headers`, `unicode`,
    `random` and the type declarations are the trusted boundary to `http`,
    std (including the locks around cookie jars), `rand`, `uuid` and
    `cookie_store`.
- `app/` is the command-line program: TLS set-up, the `reqwest` client,
  asynchronous requests and the `tokio`-locked shared cache and store.
- `tests/` runs the library on concrete inputs.
