# nb_config

Which Jupyter server `nb` talks to in a directory. A connection is recorded
for a project root; every command run in that directory or below it uses it,
and the deepest recorded root wins. The records live in one file in the user's
configuration directory, never in a project.

`src/` is the library, verified with Verus. It makes no system call.

- `config` — the connection in force in a directory, and recording one
- `store`, `projects` — the store, and how a directory's project is found in it
- `connection` — one recorded connection
- `path`, `text` — Unix paths as lists of components; texts, their order, and
  what bytes read as
- `location` — where the store's file is
- `trust` — which files are trusted
- `load`, `save` — the steps of loading and saving the store, each chosen by
  how the last one turned out

`app/` carries out those steps: it reads the environment, examines, reads and
writes files, and turns the store into JSON and back.

What depends on how the system writes paths is kept apart. `store_path` gives a
directory and names to look up in it, `save_store_to` takes the parts of the
store's path, and `Config::load_at` and `Config::save_at` take components. The
library itself makes these from paths in Unix syntax, with `Location::unix_path`,
`StorePlace::unix`, `Config::load` and `Config::save`; on other systems `app/`
makes them with the system's own path functions.
