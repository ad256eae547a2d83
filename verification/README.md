# script_utils

A verified library behind five small personal scripts:

- `automount` — the automount helper's naming rules, mount-point decision
  and the systemd escaper for the mount service instance;
- `adsl` — reading the ADSL.by statistics page and choosing the exit status;
- `feed`, `lostfilm`, `transmission` — the LostFilm.tv release watcher: the
  RSS scanner, the login form and download-page readers, and the
  Transmission RPC handshake;
- `dyndns` — planning the `home` record update of the dynamic DNS script;
- `text`, `matching` — character-level helpers (substring search,
  replacement, integer parsing and printing, capture groups);
- `outside` — the trusted calls into `encoding`, `xml-rs`, `regex` and `url`.

`app/` holds the programs themselves: HTTP, files, configuration, inotify,
Pushbullet, Pocket and the DNS service, driving the library's functions.
