# marketplace

The logic of a live-selling marketplace, verified with Verus: a product
table with stock and reservations, reservations that lapse, all-or-nothing
bulk purchases, cart checkout, inventory reports, and the decisions of the
web components and of the WebSocket server.

- `src/` is the verified library. `inventory.rs` holds the product table and
  its invariant (unique ids, never more units reserved than in stock);
  `purchase.rs` the bulk purchase and its laws; `components.rs` the state
  functions of the chat, the product card, the cart and the pages;
  `server.rs` what the server does with each message; `analytics.rs` the
  stock reports; `reservation.rs` reservations and their ids.
- `tests/` runs the library on concrete values.
- `app/` is the web front end (yew) and the async services around the
  library: locking, WebSocket and database I/O, timers, JSON, and the
  floating-point money figures.
