# fynd_core

The routing core of a DEX solver, with its behaviour stated in contracts and proved by Verus.

An order goes to pools of workers, each of which searches a route. The router collects their quotes,
ranks them net of gas, lets outside prices decide where asked to, captures what permissioned liquidity
yields beyond the public rate, and turns the chosen quotes into calls of the router contract.

## Layout

| Module | What it holds |
|---|---|
| `amount`, `bytes`, `text`, `table`, `split` | numbers of any size, byte strings, text, ordered tables, shares |
| `error` | errors of algorithms, of solving and of encoding |
| `types` | orders, options, quotes, routes and their validation |
| `encoding` | fees, solutions, calldata |
| `worker_pool` | pools, workers, readiness, the course of one quote |
| `worker_pool_router` | collecting, refining, ranking, surplus, the course of a request |
| `feed` | the market, its updates, permissions, the course of a feed |
| `solver` | configuration, assembly, recordings, readiness |
| `hindsight` | settled trades: decoding, comparison, summary |

Work that awaits, reads or sends is described by machines: a state and an event give the next state and
the action to perform. `app/` performs the actions. It holds the `hindsight` program and the tasks
around a running solver, which whoever embeds the solver starts with an indexer's client, algorithms and
price providers of their own.

## Contracts

Contracts speak of mathematical values: amounts are natural numbers, bytes and text are sequences,
tables are maps. Errors are stated with the inputs they come on. Public proof functions state what
holds across functions, such as that a user is never quoted worse for the presence of permissioned
liquidity, that fees and output add up, that a request is answered after a bounded number of steps and
with one quote for each of its orders, or that a feed which has listened to its streams never ends.

Calls into other crates stand behind small functions whose contracts are taken on trust. Each names the
function it calls and says what it claims of it.
