# mdocs

`mdocs` turns markdown files into PDF documents laid out by Typst templates
and styled by brands. Templates and brands come from git repositories and
local directories named in a layered configuration.

## Layout

- `src/` is the library, verified with Verus:
  - `text`, `strmap`, `sorting`: text operations, a string-keyed map that
    keeps insertion order, and the code-point order of names with a stable
    sort.
  - `domain`: errors, template sources, templates and brands, the layered
    configuration and its merge laws.
  - `frontmatter`: YAML frontmatter and documents.
  - `modifiers`, `converter`, `typst`: layout markers, the markdown-to-Typst
    conversion, escaping, and the split into header and columns.
  - `templates`: search order of sources, resolution (first source wins),
    discovery (one entry per id, sorted by name) and git steps.
  - `controller`: what each command decides and tells the user.
  - `output`, `logger`, `fonts`, `updater`, `sources`, `cli`: messages and
    tables, log lines and rotation, font files, release assets, repository
    names and titles, and the command line.
- `app/` is the program around it: argument parsing, reading files, running
  git, the network, prompts and printing.
- `tests/` runs the library on concrete inputs.

Calls into outside crates (pulldown-cmark, serde_yml, serde_json, colored,
semver)
and a few std functions stand behind small trusted functions whose contracts
say what the call returns; everything else in `src/` is proved.
