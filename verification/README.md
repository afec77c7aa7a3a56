# Medley

The engine of a terminal music player, verified with Verus: the library and its
lookup, search, the queue and playback over several sources, remote playlists,
downloads that are played while they come in, the media cache, scanning, playlist
files, bound keys and what is kept between runs.

- `src/` is the library. Every function states what it returns or changes; what
  holds across functions stands in public proof functions beside them.
- `tests/` runs the library on concrete values.
- `app/` is a small program around it: files, the network, the audio device and
  the desktop's media keys. It does what the library asks for and tells it what
  happened.

Decisions and effects are apart. A session takes a command or an event together
with what is known of the world (`env::Env`) and answers with requests, effects
and fetches, which the program carries out.
