# dotfm

A declarative, symlink-based dotfiles manager that thinks in tools, not
files. A dotfiles repository declares its tools in `dotfm.toml`; each
machine lists the tools it uses in `~/.config/dotfm/config.toml`; `dotfm`
links, checks and unlinks them.

The decision-making core is a library written in Verus and proved against
its contracts; a thin command-line program around it does the filesystem,
process and terminal work.

## Layout

- `src/` — the verified library.
  - `text.rs`, `paths.rs`: strings as character sequences, lexicographic
    order, sorting, joining; paths read by the `std::path` rules of the
    platform they are given (separators, roots, joining, components).
  - `os.rs`: operating systems, an environment snapshot, and the expansion
    of `$VAR`, `${VAR}` and a leading `~` (variables through `shellexpand`).
  - `registry.rs`: tools, links, hooks, per-OS values, and the resolution of
    links to `(source, destination)` pairs; the registry is kept in name order.
  - `link.rs`: the state of a destination and the plans of `ensure` (create,
    replace, back up) and `remove` (only links that point into the dotfiles
    root).
  - `config.rs`, `toml_doc.rs`: the per-machine configuration, edited in
    place through `toml_edit` so that comments and formatting survive.
  - `style.rs`: the plain and Nerd Font icon sets and how one is chosen.
  - `error.rs`: the library's errors and their messages.
  - `cli.rs`, `commands/`: the command-line surface and the decisions of each
    command (`init`, `add`, `remove`, `apply`, `status`, `list`, `doctor`,
    `diff`); `apply` hands out its steps one at a time from a state machine.
- `app/main.rs` — argument parsing, reading and writing files, running
  scripts and hooks, and printing.
- `tests/` — tests of the library on concrete values.

## Laws proved

Among them: enabling a tool twice changes nothing the second time;
disabling undoes enabling; ensuring a link is idempotent and a dry run plans
no step; an existing file or directory is never deleted by `ensure`;
`remove` deletes only symlinks into the dotfiles root; a registry lookup
gives back what was inserted; an explicit icon mode wins over `NERD_FONT`;
applying a tool (links, then script, then hooks) always comes to an end.
