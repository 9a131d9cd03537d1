# cracktorio_bot

A Factorio <-> Telegram bridge: it forwards chat between a Factorio server (console log
in, RCON out) and a Telegram chat, and announces new Factorio releases and Friday Facts.

- `src/` is the verified library (Verus): reading console log lines (`log_line`,
  `tasks::factorio`, `factorio`), turning Telegram messages into signals
  (`tasks::telegram`, `telegram`), routing signals (`bridge`), deciding on release and
  Friday Facts announcements with the state that is kept between restarts
  (`tasks::scrapper`, `fff`, `state`), which feeds are handed to feed-rs
  (`feed_admission`), the log source (`log_reader`), and the byte- and character-level
  text operations they use (`text`).
- `app/` is the program around it: command line and environment, the state file, HTTP,
  RCON, the Telegram bot, the log watcher and Kubernetes, and the async tasks.
- `tests/` exercises the library on concrete inputs.
