# epoch_services

The library behind EpochServices: a program that lends a machine's models to a paired Epoch
Host, with one page for the person at the machine (served on loopback only) and one door for
the Host (behind a bearer secret).

What decides is in `src/` and verified with Verus, apart from what `app/` says it keeps:
the request bodies sent to a local runtime and the reading of its replies, which are built
from epoch-kernel's turn types and carry floating-point sampling settings.

In `src/`:

- `door`, `host`, `invite`, `keep` — who may ask what: the window's own origin check, the
  bearer, the pairing code (one machine per code, ten wrong answers burn it, five minutes of
  life), the routes the Host may reach.
- `window`, `form` — which page or action a request is, how much of its body may be read, and
  how a posted form is decoded.
- `here`, `curve`, `bench` — which runtime a turn or a curve runs on (always loopback), and the
  state the window keeps between requests with every sentence it says.
- `page`, `modelspage`, `shelfpage`, `creations`, `workshop` — every tab, each drawn exactly as
  its spec function says, with everything a machine or a catalogue reported escaped.
- `text` — the string and number helpers the rest is proved with.

`app/` is the program around it: the listeners, the threads, the surveys of this machine and
the calls into the runtimes and catalogues. It hands the library plain values and takes plain
values back.
