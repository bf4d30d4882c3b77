# Spear

Spear is a keyboard launcher for GNOME: type a query, and built-in providers
(calculator, web and YouTube search, files, recent files, a file manager,
shell commands, system controls, and a few mode-only providers) and external
plugins answer with ranked results.

## Layout

- `src/` is the library, verified with Verus. Each provider turns a query
  (and, where it reads the machine, plain values handed to it) into result
  items, and its contract states those items exactly over spec functions.
  - `text.rs`: Unicode-aware trimming, searching and splitting of text.
  - `math.rs`: the calculator's grammar as spec functions and a parser
    proved to follow it.
  - `plugins/`: the providers, the result model and a stable ranking.
  - `plugin_manager.rs`: external plugins, query routing, and the reading
    of a plugin's printed items.
  - `settings.rs`: settings, their defaults and the choices derived from them.
  - `laws.rs`: properties that span several functions.
- `tests/`: tests of the library on concrete values.
- `app/`: the desktop side (GTK windows, the layer-shell binding, files,
  processes, threads and JSON), which hands plain values to the library.
