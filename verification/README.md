# mpvcast

A small media caster built on mpv. A front end sends requests (play, pause,
stop, seek, volume, load, browse) over TCP as length-delimited protobuf
messages; a server plays them with mpv and answers each one.

`src/` is the verified library:

- `wire`, `codec`: protobuf varints and the reading and writing of the
  protocol's messages, with their round trips proved.
- `comms`, `mpvcast`: the request and response messages of the server and of
  the stand-alone player.
- `player`: what each request asks mpv to do, what each mpv event does to
  the player's state, and the answers and error messages.
- `formats`, `browse`: the media formats read from `ffmpeg -formats`, and the
  answers to browse requests.
- `frontend`: what the front end offers in each state, how it numbers its
  requests and pairs answers with them.
- `cli`, `duration`, `text`: command-line values and string helpers.

`app/` holds the programs around it (`mpvcast server`, `mpvcast player`,
`mpvcast frontend`): the TCP plumbing, the calls into libmpv, ffmpeg and the
file system, and the gtk4 window.
