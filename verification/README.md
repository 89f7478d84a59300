# herdr

The logic of a terminal multiplexer's client, with its behaviour stated in contracts and proved
by Verus. What touches files, sockets, processes, audio devices or the terminal is kept outside
the proofs.

## Layout

- `src/` is the verified library.
  - `bytes`, `text`, `json`, `random`: small tools, and the few outside functions they rest on.
  - `osc`: reading a terminal's output stream: default colours, titles and progress, working
    directories, scrollback clearing, and the announcements of remote helpers.
  - `input_origin`, `input`: where typed input comes from, how raw input is framed, and the
    course of the reader that feeds the client loop.
  - `execution`: execution targets, the requests that start commands there, and the helper that
    runs them on another host.
  - `identity`, `guest_state`, `ipc`, `handoff`: what a client and its guests keep, which sockets
    and directories may be touched, and what one server hands to the next.
  - `media`: who may open the microphone, the course of one session, and its sample buffers.
  - `omp_pane`: finding the right guest and carrying frames between it and the server.
  - `renderer`: the local renderer of a pane: which input it gets, what waits, and what is shown.
- `tests/` runs the library on concrete values.
- `app/` performs what the library asks for.

## How outside work is done

Nothing in `src/` waits, reads or sends. A decision that depends on outside work is a state
machine: it asks for one thing, takes the outcome, and says what follows. `app/` holds the loops
that do so. Times are milliseconds, paths are text or bytes.

## What is proved of the whole

Besides the contract of every function, each module states laws about several of them, in proof
functions named `law_...`. The largest is in `renderer::conservation`: text that was typed goes
on waiting, step after step, until the renderer's terminal took it or it is in a message for the
server. `renderer::order` adds that without a renderer it gets there once, and in order.
