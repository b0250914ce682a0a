# kalshi_terminal

A terminal for Kalshi's fifteen-minute bitcoin markets, built around a library
whose logic is proved with Verus.

- `src/` is the verified library:
  - `price` — the tapered grid of contract prices (whole mils) and its levels;
  - `orderbook` — the book of one market, its best ask and bid, mid, spread and
    display ladders;
  - `market` — market descriptors, poll states, and the choice of the previous,
    current and next market around a moment;
  - `bundle` — everything kept about one followed market, how reader events
    change it, and its archive record;
  - `feed` — how exchange messages become book events, a reader's schedule, and
    the price poller's back-off;
  - `session` — the per-frame plan of the window;
  - `auth` — the signed access headers of the order book stream;
  - `decimal` — decimal rendering of integers.
- `app/` is the program around it: HTTP and WebSocket clients, JSON and rkyv
  formats, floating-point conversion, and the egui window.
- `tests/` exercise the library on concrete values.
