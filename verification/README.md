# hellbox

DOOM in a browser tab, run on an AWS Lambda MicroVM in your own account.

The library in `src/` decides everything that can be decided without touching the network or
the disk, and Verus proves that it decides as its contracts say. The program in `app/` asks
the service, reads and writes files, moves bytes, and does what the library tells it.

- `proxy`: the loopback proxy. Who may use it (`gate`, `cookie`), where a request goes and what
  comes back (`exchange`, `forward`, `reply`, `page`), WebSocket sessions (`upgrade`), and the
  control plane behind the page's buttons (`control`, `json`).
- `commands`: what each command decides: `deploy`, `destroy`, `image` (building), `up`
  (launching, suspending, resuming, terminating), `open`, `play`, `ps`, `rm`, `config_cmd`.
- `config`, `state`: the settings and the ledger of capsules.
- `aws`, `discover`, `stack`, `lifecycle`, `poll`: accounts and credentials, machines that the
  ledger does not know, the prerequisites stack, and waiting.
- `headers`, `text`, `number`, `random`: header fields, strings, numbers, random bytes.

Functions marked `#[verifier::external_body]` call an outside crate; their contracts are
believed, and their comments say what is claimed of the call.

Public proof functions named `law_…` state what holds of the library as a whole: that a request
passes only with the session's secret, that no cookie field that goes upstream holds the
secret, that a page visit does not wake a suspended machine, that nothing is destroyed which a
deployment did not make.
