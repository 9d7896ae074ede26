# remux_server

Decisions of a media server's playback endpoints: HLS playlists and segments,
transcode sessions, subtitles and the choice of streams. The library is written
in Rust and verified with Verus: each function states what it returns, and Verus
proves that it does.

- `src/` is the library. An endpoint that waits for files, ffmpeg or the
  database is a function from a stage and an event to the next stage and an
  action; it does no input or output itself.
  - `hls`, `playlist`: master and variant playlists
  - `hls_session`, `transcode`: making the transcode of a play session
  - `hls_segment`: serving segments and starting the encoder anew
  - `subtitle_stream`, `subtitle_cache`, `subtitle_index`, `ranking`: subtitles of
    the file and of addons
  - `stream_service`, `probe`, `media_info`: choosing and probing streams
  - `ids`, `language`, `media`, `number`, `reply`, `text`, `words`: what the others
    are made of
- `tests/` holds its tests.
- `app/` serves the endpoints over HTTP with the decisions of the library.

Functions marked `external_body`, the one `assume_specification` and the names
without a body are the boundary to `std`, `uuid` and `isolang`: their contracts
are believed, and the comment above each says what is believed.
