# buckos_update

The decision core of the BuckOS update agent (`status`, `check`, `pull`, `deploy`,
`rollback`, `cleanup` on an ostree-based system) and of its image installer, written
in Verus.

The library performs no input or output. Each operation is a function from the
replies received so far to its next step: one more request to carry out, or its
result. A thin program carries the requests out and asks again.

- `src/agent.rs`: the operations of the update agent, and when a remote is trusted
- `src/install.rs`: laying down a signed image on a fresh target
- `src/exchange.rs`: requests, replies and steps
- `src/status.rs`, `src/remote.rs`: what is read out of `ostree admin status` and of
  remote configurations
- `src/display.rs`, `src/source.rs`: the installer's display environment and source
- `src/error.rs`, `src/report.rs`: errors, and what the user is told
- `src/text.rs`, `src/path.rs`, `src/number.rs`: the primitives underneath
- `src/laws/`: what holds of the library as a whole
- `app/`: the command line around the library
