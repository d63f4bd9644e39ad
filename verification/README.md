# locho

A private tunnel for explicitly selected HTTP and TCP services. A host exposes
named services, each with a secret of its own; an attachment that holds the
secret of a service reaches it through a local listener.

- `src/` is the library: everything a host and an attachment decide, verified
  with Verus. It opens no file and no socket.
- `app/` is the program around it: command line, files, sockets, and timers.
- `tests/` runs the library on concrete values.

| Module | What it decides |
| --- | --- |
| `auth` | secrets and the proofs that a peer holds one |
| `capability` | the text form of a capability |
| `config`, `attach_config` | which configurations are valid |
| `upstream` | which URL a request is forwarded to |
| `http_utils` | which headers cross the tunnel |
| `protocol` | stream heads, frames, and chunked bodies |
| `relay` | the relay between two byte streams |
| `host` | admission, forwarding, and answers on the host |
| `attach` | requests, answers, and failures on the attachment |
| `supervisor` | when the shared connection is made, withdrawn, and made again |
| `transport` | how the path of a connection is described |
| `lifecycle` | limits on clients, and the end of an attachment |
| `state` | the identity and the secrets that a host keeps |
| `atomic_write` | replacing a file as a whole |
| `diagnostics` | checks of the local state |
| `tunnel` | laws of the two ends together |
| `cli` | rules of the command line |

Laws that relate several functions are the `law_` proof functions of the
modules. Calls into other crates stand in small functions whose doc comments
say what is taken from those crates unproved.
