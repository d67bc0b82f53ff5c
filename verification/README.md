# config_crap

Building blocks for reading service configurations, written in Verus and
proved against their contracts.

## Layout

- `src/` — the verified library, one module per concern:
  - `boolean` — a boolean read from booleans, 0/1 and a small vocabulary
    of words;
  - `range_ints` — integers that carry the range they must lie in;
  - `env` — the environment, and `${NAME}` references to its variables in
    strings;
  - `regexp` — regular expressions kept with their pattern, options and
    capture-group names;
  - `compiled` — compiled expressions, each kept with the pattern and
    options it was built from;
  - `filters` — the computations behind the URL and date template
    filters;
  - `template` — template and expression strings checked when read;
  - `middleware` — format markers and values read from files;
  - `reflect` — an in-place structural update of reflected values that
    reports whether anything changed;
  - `reloadable` — the step functions of a service handle whose service is
    replaced while it runs;
  - `lua_derive` — the option parsing and method naming of derived Lua
    bindings;
  - `openrouter` — the OpenRouter API vocabulary and the hand-written
    parts of its wire format;
  - `text` — string helpers shared by the others.
- `tests/` — tests of the library.
- `app/` — what the library leaves to its surroundings: serde adapters,
  file and environment access, the `tower` services, the HTTP client,
  minijinja evaluation and the Lua runtime bindings.
