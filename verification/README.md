# snek_apollo

A small media player core with verified logic.

The library under `src/` holds what the player decides, parses and computes. Every function there has
a contract that Verus proves:

| module | subject |
| --- | --- |
| `text`, `units` | text, numbers, milliseconds and ticks |
| `playlist` | HLS playlists: renditions, segments, durations |
| `request` | the HTTP requests and their headers |
| `stream_buffer`, `byte_stream` | bytes that one thread writes and another reads |
| `download`, `rendition`, `prefetch` | downloading a file, a rendition, a whole recording |
| `source` | how a medium is opened, and which streams are used |
| `decode`, `audio`, `pixels`, `display` | the decoding loop, the sound, the pictures and where they go |
| `probe`, `linux` | decoding with `ffmpeg` and `ffplay` |
| `player` | states, commands, and what the user sees |
| `remux`, `temp_files` | copying streams, and files to be removed |
| `failure` | what is said where something outside fails |

What the HTTP client `ureq` does with a request, and what `String::push` does, is taken for granted;
`request` and `text` say what exactly.

`app/` holds the threads, the network, the files, the system's interfaces and the arithmetic on
floating-point numbers. `tests/` runs the library.
