# monsoon

A BitTorrent client in two halves: a daemon that runs in the background, and commands and a
terminal interface that talk to it.

What the client decides is in `src/`, a library whose functions state in their contracts what they
return and change, and whose contracts Verus proves:

- `text`, `names`, `order`, `paths`, `integers`, `binary64`: texts, sets and maps keyed by text,
  paths, and numbers;
- `config`, `config_keys`, `folders`, `categories`, `layout`, `rename`, `sources`, `rss`: the
  configuration and the rules about torrents, files and feeds;
- `server`, `requests`, `handle`, `background`, `daemon`, `session`, `network`: what the daemon
  answers and does;
- `cli`, `listing`, `display`, `autostart`: the commands and what they print;
- `textfield`, `tui`: the terminal interface as a state that keys, the mouse and answers change.

What touches the world is in `app/`: sockets, files, TLS, libtorrent, the terminal. It hands the
library plain values and carries out what the library decides.

A daemon's time is counted in milliseconds since it started, and the mouse's in nanoseconds.
Floating-point numbers are carried as their bits; the library compares them and the program writes
them.
