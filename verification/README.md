# adopt

Find the wintermute tools that were built, tested and committed but never
installed, and decide what to do about them.

The crate is in two parts.

- `src/` is the library, verified with Verus. It holds every decision the
  tool makes, stated as `requires`/`ensures` contracts over plain values:
  freshness verdicts (lineage before clock), fix commands, the repos a scan
  visits and their order, the install-root guard, the steps of an apply run
  (which stops at its first failure), reconcile decisions, the classification
  of not-current artifacts, docket argument lists, the convergence check, the
  doctor's cleanup plan, and every table the tool prints.
- `app/` is the `adopt` program: command-line parsing, reading the file
  system, git and the environment, running subprocesses, and JSON/TOML
  (de)serialisation. It gathers facts, hands them to the library, and carries
  out what the library decides.

Modules of the library:

| module | what it decides |
|---|---|
| `text`, `paths` | strings, padding, path joining, components and path order |
| `types` | verdicts and the per-artifact record |
| `documents` | parsed JSON and TOML values, as far as the tool reads them |
| `scan` | verdicts, fix commands, ages, declared binaries (from a Cargo manifest's text), the bin filter, daemon units, the scan table |
| `repos` | which repos a scan visits (from the build manifest's text), merged and sorted in path order |
| `marker` | source fingerprints and where markers live |
| `apply` | the install-root guard and the steps of an apply run |
| `reconcile` | whether to seed a marker, and the reconcile report |
| `verify` | the stale-reason classification and its summary |
| `report` | docket report/resolve argument lists and the plan of a report run |
| `converge` | the convergence alert, the ledger and the trend table |
| `doctor` | the junk cleanup plan |
