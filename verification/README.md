# chronicle-bot

A Discord bot that records tabletop voice sessions, one track per speaker, with
everybody's consent.

`src/` is the decision core, verified with Verus: who takes part and what they
chose, the stabilization gate that has to open before anything is uploaded, the
capture tasks and their chunk cache, the mix track, uploads with their retries,
restarts, and the answers to commands and clicks. Every function takes plain
values and returns plain values; what has to be done outside comes back as an
effect or a request.

`app/` is the program around it. It talks to Discord, the data API, the disk and
the clock, performs those effects, and hands the outcomes back. `tests/` runs the
core on concrete values.

## Layout of `src/`

| Module | What it holds |
|---|---|
| `session` | a session: phases, actor, stabilization gate, capture, healing, restarts |
| `voice` | chunk cache, mix, PCM, reception of frames, voice states |
| `roll` | what follows from the participants' choices: quorum, prompt, files |
| `consent`, `consent_first` | sessions that ask for consent before they record |
| `commands`, `harness`, `interactions` | answers to commands, clicks and HTTP requests |
| `api_client`, `db`, `storage` | requests, statements and uploads |
| `config`, `version`, `time`, `ident`, `text`, `collect` | the small things |

What is trusted rather than proved is what chrono, uuid, sha2, hex, dashmap, the
monotonic clock and `String::push` do. It stands in functions marked
`#[verifier::external_body]`, in `assume_specification` items, in the declarations
of two types from outside, and in the spec functions without a body that name
what an outside function returns or an outside map holds. Each has a comment that
says what it claims.
