# dpl

`dpl` manages local PHP development: `.test` sites served by a background
daemon, per-site PHP versions and Xdebug modes, local databases, captured
mail, and the dply platform commands (`dpl dply …`).

This crate is written in Verus. The library in `src/` holds the logic, and
every public function there has a contract that Verus proves. The program in
`app/` reads files, talks to the daemon and the dply API, and prints what the
library computes.

## Layout

- `src/` — the verified library, one module per area:
  - sites and configuration: `sites`, `config`, `paths`, `valet`, `spec`, `branchdb`
  - PHP, Xdebug, SPX, Node and php-fpm: `php`, `xdebug`, `spx`, `node`, `fpm`
  - the daemon protocol and service files: `ipc`, `daemon_service`, `helper`, `seams`
  - checks and reports: `checks`, `doctor`, `parity`
  - mail capture and the SMTP dialogue: `mail`
  - the dply platform: `dply` (the client's rules), `dply_cmd` (what each
    command sends and shows), `config_store`, `json`, `output`
  - `keel`, `fan`, `logs`, `local`, `text` (text, paths and numbers in spec form), `error`
- `app/` — the command line: argument parsing, the unix socket, HTTP, files.
- `tests/` — tests of the library on concrete values.

## What is proved

- Each function's result is stated exactly over spec functions: the lines a
  listing prints, the requests a command sends and in what order, the checks
  a report holds, the canonical forms of modes, tags and hosts.
- Laws that span functions are public proof functions. For example:
  - a parsed Xdebug mode parses back to itself;
  - normalised tags normalise to themselves;
  - the store gives back what was written;
  - a frame's length reads back as written;
  - a linked site reads the same from `resolve_one` as from `resolve`.
- Calls into other crates (mail parsing, base64, case mapping) sit behind a
  small set of trusted items, each documented with what it claims.
