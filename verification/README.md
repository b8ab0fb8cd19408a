# pizerarr

A self-hosted media server: torrent search and download, a video library
with subtitles, HLS conversion for browsers, and trending titles.

The logic lives in the verified library under `src/`, written in Verus:

- `text`, `paths`, `sizes`, `sorting`, `table`: text operations as std's
  `str` and `Path` perform them, byte-size display, stable sorting and a
  keyed table, each with its specification.
- `subtitles`, `language`: SRT and ASS to WebVTT, subtitle language guesses.
- `library`: subtitle tracks, ffprobe output, media file descriptions.
- `transcode`: HLS locations, converter arguments and the job table.
- `search`, `dom`: search URLs and the results of each site's answer.
- `subs`, `torrent`, `tmdb`, `server`: the subtitle cache, torrent details,
  metadata items and the server's small decisions.
- `trusted`: the calls into std and `urlencoding` whose contracts are
  assumed, each documented.

`app/` holds the program around it: configuration, the axum routes, HTTP
requests, file-system scans, ffmpeg and ffprobe processes and the torrent
session. Float computations (progress, ratings, disk usage share) stay there.
Static front-end files are served from `PIZERARR_STATIC_DIR` (default
`./static`).
