# hftbacktest

The core of an event-driven backtester for trading strategies, verified with Verus.

A backtester simulates several assets. Each asset has a local side, where the strategy runs, and an
exchange side. Both process market data and orders, each event at its own time, and the backtester
serves all pending events in time order. The strategy lets time pass, waits for the next market
data or for the response to an order, and submits and cancels orders in between. Queue models
estimate where a resting order stands in the queue at its price.

## Modules

- `multi` and `single`: the two backtesters. In the first the sides of the assets may differ in
  type, in the second they are all alike.
- `engine`: the loop that both are made of. `run` and `requests` say what it does.
- `evs`: the pending events. `proc`: what the two sides of an asset do. `asset`, `types`, `depth`,
  `quantity`: the types that all this is made of.
- `queue`: queue models that estimate the quantity ahead of an order.
- `l3`: the order-by-order queue model, in price-time priority.
- `laws`: what holds of every run. `failure_laws`: of runs in which a processor fails or a feed
  ends. `twin_laws`: two backtesters whose processors behave alike do the same. `queue_laws` and
  `l3_laws`: what holds of estimated positions, and of every book.

Prices and quantities are of any type that implements `quantity::Quantity`. Contracts say which
operations are carried out on which values. `app/` holds such a type for single-precision numbers.
