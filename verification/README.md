# jumphost

A userspace VPN jumphost. It signs in to an F5 VPN with a browser, keeps
`openconnect` and `ocproxy` running as an ordinary user, and offers a local
proxy that sends configured domains through the tunnel and everything else
directly.

## Layout

- `src/` is the library: every decision of the program, verified with Verus.
  Its functions work on plain values; what depends on the outside world comes
  in as an argument, and what has to be done about it goes out as a value.
- `app/` is the program: the command line, sockets, processes, files, the
  keyring, desktop notifications and the browser.
- `tests/` runs the library.

## How to read the contracts

Each executable function states its result over a spec function that says the
same in mathematical terms: `route_for` over `route_of`, `generate` over
`pac_of`. The conversations with other parties are state machines. A machine's
`turn` takes what has happened and says what to do next, and a spec function of
the same shape (`handshake_turn`, `session_turn`, `poll_turn`,
`Supervisor::turn_of`) says exactly what that is. The functions whose names
begin with `law_` prove what holds of the library as a whole, such as that the
PAC script and the routing proxy agree, that no more than three Authenticator
notifications are sent, or that a failed sign-in never ends the program.

How many notifications were sent is an `MfaAttempts`, which the supervisor and
its browser sessions hand on to one another. `Supervisor::step` and
`FetchPoll::turn` say exactly what becomes of it, and
`law_three_notifications_per_cookie` and `law_no_fourth_notification` put a whole
run together.

`MfaAttemptBudget` is for owners who have to share one count. Between two calls
another owner may have changed it, so its contracts say which count was read
from the store that the owners share, and what was written to it in place of
what; they do not say in which order the writes of several owners come.
`law_three_attempts_between_resets` is about any such order, as a list of writes.

## What is taken on trust

`String::push` and `String::from_utf8` of the standard library, with the
contracts that stand in `src/text.rs`, and that the `Debug` form of a string
depends on the string alone, in `src/browser.rs`.
