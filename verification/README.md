# pyra

A project manager for blockchain development: it keeps a registry of projects
in `~/.pyra/settings.json` and opens, builds, runs and purges Substrate nodes.

- `src/registry.rs`: the settings (default editor command and projects) and
  the operations on them: listing, lookup, adding, removing, setting the
  editor, deciding how to open a project, planning a removal.
- `src/laws.rs`: properties of those operations that relate several calls.
- `src/command.rs`: the command-line word, the platforms, the user interfaces.
- `src/platform/substrate.rs`: paths and arguments of a Substrate project.
- `src/location.rs`: where the settings live, and path components.
- `app/`: the program: prompts, files, processes, the browser, signals, and
  the JSON form of the settings.
