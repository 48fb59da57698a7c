# Twitch Chat Translator

A real-time Twitch chat translator that shows non-English messages with their
translation and romanization, on the terminal and in a web UI.

- `src/` is the library: chat lines, language detection, the translation cache,
  the translation API, the transcription pipeline and the chat client, each as
  verified functions from what happens to what is to be done. The contracts
  speak of text as sequences of characters and of values by models made of them.
- `app/` carries out what the library decides: sockets, HTTP, processes, the
  SQLite database, the terminal. `twitch-translator` translates a channel's chat;
  under the name `translation-api`, or with that argument, it serves the
  translation API instead.
- `tests/` runs the library on concrete values.

## Modules

| Module | Subject |
| --- | --- |
| `text`, `number`, `letter_case`, `percent`, `json` | text, decimal numbers, letter case, URL encoding, JSON values |
| `clock`, `config`, `events` | time, settings, events for the web UI |
| `irc` | chat lines of the IRC server |
| `language`, `translator`, `cache`, `api` | detection, translation to English, the cache, the translation API |
| `style`, `display` | colors and lines on the terminal |
| `transcription` | audio transcription and its reconnection |
| `twitch`, `web` | the chat client and the web server |
