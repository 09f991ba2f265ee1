# catalyst

A multi-tenant web application framework: tenant-aware login with JWT access
and refresh tokens, token revocation per user, guards that keep each tenant's
users to their tenant, HTMX partial responses, HTML builders, structured
application errors, logging, and optional "spark" modules.

## Layout

- `src/` is the library, written in Verus. Each module states what its
  functions do in `requires`/`ensures` contracts over mathematical models,
  and the properties that span several functions are public proof functions
  named `law_*`:
  - `token_registry`, `token_history`, `jwt`, `jwt_service`: token versions
    and spent refresh tokens per tenant (and what a series of calls keeps),
    issuing and judging token claims;
  - `guards`, `auth_flow`, `catchers`: access decisions, login, logout,
    refresh and page decisions, error answers;
  - `meltdown`, `htmx`, `builders`, `logger`, `text`: errors, HTMX replies,
    HTML lists/selects/tables, log formatting and the string functions they
    rest on;
  - `sparks`, `spark_state`, `manifest`, `bootstrap`, `hooks`: the spark
    registry, its settings and page components, spark manifests (parsed with
    the `toml` crate) and the start-up checks;
  - `tenancy`, `fairings`, `passwords`, `scheduler`, `api_logs`, `partials`,
    `records`: tenant connections and storage paths, response compression and
    caching, password hashing, the job schedule, the API dashboards' data.
  Calls into outside crates (bcrypt, flate2, uuid, chrono, toml, std) stand behind
  small trusted wrappers whose contracts say what the crates document.
- `app/` is the server around the library: Rocket routes, request guards,
  responders, fairings, the database (Diesel), configuration loading, file and
  log I/O. It reads requests, asks the library what to do and does it.
- `tests/` runs the library on concrete values.
