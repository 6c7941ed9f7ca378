# spotnowplay

Shows the music playing on Spotify in OBS. The Spotify access token is obtained
through Discord; the player is followed over Spotify's dealer WebSocket; each
change is written into the OBS inputs whose names end in `obs-spotify.text` and
`obs-spotify.albumart`.

Layout:

- `src/` is the library, verified with Verus: the message types, the reading of
  player states, the decisions taken on each message of the Discord gateway and
  the Spotify dealer, the suppression of repeated notifications, the texts and
  album art written into OBS, and the addresses the program connects to.
  - `text`: search, single-pass and repeated replacement, suffix test, joining.
  - `notify_model`, `model`: notifications, music, configuration.
  - `spotifyapi`, `spotifyws`: dealer messages, player states, dealer steps.
  - `discordws`, `discordapi`: gateway messages and steps.
  - `filter`: repeated-notification suppression.
  - `obsdriver`: what is shown in OBS and the driver's step.
  - `playback`: the playback-state handler.
  - `endpoints`: URLs and the token check.
- `app/` is the program around it: the WebSocket and HTTP connections, OBS,
  JSON, the command line, and the loops that hand each event to the library's
  step functions and carry out what they return.
- `tests/` runs the library on concrete values.
