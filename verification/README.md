# siggy (verified core)

The decision logic of a terminal Signal client, written in Verus and proved
against its contracts.

## Layout

- `src/` — the verified library
  - `compose.rs` — composer markup (`*bold*`, `_italic_`, `~strike~`,
    `` `mono` ``, `||spoiler||`): stripped body, byte and UTF-16 style ranges,
    removed-marker offsets; URLs are never styled.
  - `editing.rs` — input-buffer editing: cursor line/column, line bounds,
    delete-word-back, @-mention trigger, editing keys and input history.
  - `autocomplete.rs` — completion lists for slash commands, `/join` targets
    and `@` mentions, filtered and stably sorted by display name.
  - `conversation.rs` — a conversation's message list: placing a new
    message, sweeping expired disappearing messages, prepending a page of
    history, with the read marker and focus kept on the same messages.
  - `join.rs` — what `/join <target>` opens (usernames, ids, names, numbers).
  - `reactions.rs` — the reaction toggle and the reacted-to message's author.
  - `lock.rs` — the passphrase lock screen's state machine.
  - `image_scan.rs` — which inline and link-preview images of the open
    conversation get a background render, and which renders are dropped.
  - `app.rs` — menu shortcuts, overlay/input modes, link extraction from
    message bodies, `file://` paths, vetting local files before opening, the
    end of the initial sync burst.
  - `audio.rs` — player selection, audio content types and extensions, Ogg
    Opus duration, `m:ss` rendering.
  - `types.rs` — the boundary event vocabulary shared by every engine.
  - `backend.rs`, `backend/` — reconnect policy, demo and signal-cli adapter
    decisions (what to do once signal-cli answered a request), and the native engine: receive mapping (`receive.rs` over the
    envelope model in `proto.rs`), crash journal, identity resolver, send
    planning with strictly increasing wire timestamps, per-account store paths.
  - `text.rs`, `paths.rs`, `clock.rs` — character, path and time primitives,
    including the trusted wrappers around std and outside crates.
- `tests/` — executable tests of the library.
- `app/` — the I/O edges: `PATH` lookup and playback, reading voice notes,
  store directories on disk, canonicalizing files, the journal's JSON rows,
  and the wall-clock side of the sync burst.
