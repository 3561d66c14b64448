# rsdlp

A small service around [yt-dlp](https://github.com/yt-dlp/yt-dlp), with an HTTP API, a
password-protected panel and an optional Telegram bot. Its logic is a Verus library:
what each function does is stated in its contract and proved.

## Layout

- `src/` is the verified library.
  - `text`, `numeral`, `double`, `json`: texts, numerals, binary64 numbers as bits,
    and JSON documents.
  - `ytdlp`: command lines, and what a report says of a media.
  - `web`: the public endpoints.
  - `db`, `admin`, `storage`, `startup`: blocked domains, passwords and sessions, the
    panel, the staging directory, and what the server is told when it starts.
  - `telegram`: commands, the menu and its keyboard, the state of the bot, its
    dialogue, downloads, media files, credentials, and the laws between them.
- `app/` runs the library: axum, SQLite, child processes, and MTProto.
- `tests/` holds the tests of the library.

Functions whose names begin with `law_` are theorems about the library as a whole.

## What is trusted

The library calls `serde_json`, `bcrypt`, `grammers-client` and a few functions of
the standard library through small wrappers, each with a comment on what is believed
of the call.

- A JSON document is what `serde_json` reads; of a number the library takes the
  readings as `u64`, as `i64` and as the bits of a binary64 number.
- A hash that `bcrypt` made matches the password that it was made from. Two passwords
  that agree in their first 72 bytes match the same hash.
- Letters outside ASCII are made small by the standard library.

## Running

`yt-dlp`, `ffmpeg` and `ffprobe` are expected on the `PATH`, and `index.html` and
`admin.html` in the working directory. The server listens on `0.0.0.0:3000`, or on
`RSDLP_BIND_ADDRESS`, and keeps its files in `RSDLP_DATA_DIR`. The log level is that
of `RSDLP_LOG` or `RUST_LOG`, else that of `--log-level`, `--log` or `-l`, else
`info`.
