# nodemgr

Manages Selendra nodes on a host: a registry of named nodes, the systemd
unit of each, and the download of the node binary.

- `src/` is the library, verified with Verus:
  - `node.rs`: nodes and chains; reading a chain from its name.
  - `registry.rs`: the registry, a map from names to nodes kept in insertion
    order, with the laws of adding, removing and looking up nodes.
  - `service.rs`: the unit file of a node and the steps (files to write,
    programs to run) that enable and disable its service.
  - `download.rs`: byte ranges and the decisions of a resumable download.
  - `binary.rs`: the latest release named by a tag listing, and its address.
  - `profile.rs`: where files live in development and release builds.
  - `text.rs`: decimal numbers, white space, and character sequences.
- `app/` is the command-line program: argument handling, the TOML registry
  file, HTTP, and the processes that the library's steps name.
- `tests/` exercises the library on concrete values.
