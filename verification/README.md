# subscription_vault

A vault for prepaid subscriptions, written in Verus. Subscribers deposit tokens, merchants charge
them by the interval, for usage or once, and everybody can get back what is theirs.

Each call of the vault is a method of `vault::Vault`. Its contract names two things: a
`..._refusal` function, which says on which states the call is refused and with which error, and a
function that gives the state after the call was done. Each call
starts with a clean list of reports. Apart from that a refused call changes nothing, with two
exceptions that the contracts spell out: a charge that comes after the end of a subscription marks
it as expired, and a vote that comes too late is reported.

## Layout

| Module | What it holds |
| --- | --- |
| `types`, `records`, `events` | addresses, errors, the records that the vault keeps, its reports |
| `table`, `totals`, `encoding`, `safe_math` | maps, sums over maps, byte strings, checked sums |
| `vault` | the vault and the state that contracts speak of |
| `subscriptions`, `lifecycle`, `deposits` | creating, pausing, cancelling, transferring, funding |
| `charge_core`, `charging`, `billing`, `buyout`, `batch` | what is charged, when, and who earns it |
| `merchants`, `disputes`, `metadata`, `statements` | what merchants and subscribers do besides |
| `admin`, `governance`, `oracle_adapter` | settings, proposals, prices |
| `payments` | the lock that a call holds while a token has control |
| `accounts`, `reconciliation`, `snapshots` | what is held against what is owed, exports |
| `nonce`, `idempotency`, `crypto` | replays, request keys, signatures |
| `laws`, `guarantees` | what holds over several calls |
| `scenarios`, `multi_token`, `dispute_matrix`, `mutation_calls`, `malicious_token` | ready-made situations |

`app/` holds a Soroban contract around the token of `malicious_token`.

## What is trusted

`idempotency` takes SHA-256 from `soroban_sdk`, and `crypto` takes Ed25519 from `ed25519-dalek` with
random bytes from `rand`. Their results carry names; of a signature it is believed that it strictly
verifies under the key that made it, unless its point is the neutral one. Everything else is proved.
