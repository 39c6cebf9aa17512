# tonk_worker

The decision core of the Tonk worker's router, verified with Verus.

`src/` holds the logic the routes and command handlers run between their
reads and writes: sync gating and failure classification, the sync work
queue, space creation and naming, remote and upstream wiring, the member
roster, invitation links, seed identities, transact preflight, site
registration, space removal and custody rotation. Every function states its
behaviour in `requires` / `ensures`; the laws that span several calls are
public proof functions beside the functions they relate.

Calls into outside crates (`url`, `hex`, `rand`, `blake3`, `base58`, `bs58`,
`serde_json`) go through small trusted wrappers whose contracts say what the
crate's source shows.

`app/` holds the serde shapes the HTTP handlers exchange and converts them
to and from the library's types, and the loops that drive the share and
sync step functions through callbacks that perform their actions. `tests/` exercises the library on concrete
values.
