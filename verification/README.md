# rust_applesauce

The client side of the Nostr relay protocol, verified with Verus.

The library takes decisions and does no I/O. Its contracts say what goes to a
relay, how an inbound frame is read, which subscription or request it belongs
to, what a stream yields and when it ends, and when the shared socket connects
and closes.

| Module   | What is in it |
|----------|---------------|
| `socket` | The shared connection: lazy opening, channels and their count, keep-alive |
| `relay`  | Subscriptions, publish, auth and count requests, stream adapters |
| `types`  | Messages from and to a relay, responses, errors |
| `event`  | Nostr events and their JSON form |
| `filter` | Subscription filters and their JSON form |
| `json`   | JSON documents as plain data |
| `codec`  | The boundary to `serde_json` |
| `text`   | Strings as sequences of characters |

At the end of most modules stand the laws: public proof functions named `law_..`
that relate several functions, such as that a subscription sees only its own
messages, or that an idle socket closes when the keep-alive expires.

Trusted without proof are the declarations marked `external_body` in `codec`
(`serde_json` and `serde`) and `relay` (`nanoid`), and the specification of
`Duration::from_secs` in `socket`.

`app/` runs the decisions on `tokio` and `tokio-tungstenite`, and gives the types
the traits of `serde` and `thiserror`.

A limit worth knowing: a frame is let through to a subscription if the identifier
stands in it character for character. A relay that writes the identifier with
JSON escapes is not heard.
