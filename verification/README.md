# shell_cast

The casting daemon behind a GNOME Shell Chromecast extension, as a verified
library (`src/`) and the program around it (`app/`).

`src/` holds the logic, each function with a Verus contract:

- `mirror/` - Cast Streaming: RTP packetization (`rtp`), RTCP parsing and
  Sender Reports (`rtcp`), the per-stream send history and retransmission
  (`sender`), the OFFER/ANSWER messages (`messages`), encoder selection
  (`encoder`) and the decisions of a mirroring session (`plan`).
- `streaming/` - the control channel's messages and steps (`channel`), the
  encoder policies (`encoder`), receiver constraints (`quality`), the
  resolution ladder (`ladder`) and the AES-CTR frame encryption
  (`openscreen::crypto`).
- `discovery`, `http`, `pipeline`, `capture`, `cast`, `session` - device
  bookkeeping, stream serving, `GStreamer` pipeline descriptions, the portal
  request, the media receiver connection and the session rules.
- `text`, `wire`, `json` - characters and numbers, big-endian fields, and the
  JSON values the logic reads.

Laws that span functions are public proof functions named `lemma_*`.

`app/` is the daemon itself: D-Bus, mDNS, sockets, TLS, threads, the portal
and `GStreamer`. It hands the library plain values and acts on what comes
back.
