# head_huntress

A job-hunting assistant's core, verified with Verus: jobs and their
identity, hard-constraint and weighted semantic job filtering, candidate
profiles, evidence-validated resume plans, and the request/response logic of
the semantic-assessment providers.

## Layout

- `src/` — the verified library.
  - `text.rs` — character-level operations (whitespace trimming, ASCII
    lowercasing, substring search, prefix/suffix stripping, decimal
    rendering), each proved against a `Seq<char>` specification.
  - `logic/` — `job` (listings, sightings), `profile` (candidate evidence),
    `resume` (plan validation), `rules` (evaluation and prompts).
  - `application/evaluator.rs` — the evaluation use case.
  - `adapters/` — TypeSafe request building, answer mapping, retry policy
    and `Retry-After` parsing; OpenRouter prompt building and fence removal.
  - `ports/` — provider error types and the renderer interface.
  - `cli.rs` — the command set.
- `app/` — the unverified shell: clap argument parsing, the reqwest and
  OpenRouter clients, async provider traits, file access, and serde forms
  of the library types with conversions both ways.
- `tests/` — executable tests of the library.

## Numbers and times

Fractional quantities — rule weights, confidences, probabilities and scores —
are fixed-point integers in thousandths (`SCALE = 1000`): a confidence of
`0.7` is `700`, a score of `90.0` points is `90_000`. Scores are rounded
down to the thousandth. The serialized forms in `app/wire.rs` convert from
and to decimal numbers, rounding to the nearest thousandth; that conversion
is not verified.

Where a value is shown with two decimals (criterion lines, confidence
reasons, probability explanations), it is shown as `{:.2}` shows the `f32`
nearest to it: the float's exact binary value is rounded, ties to even, so
`125` is shown as `0.12`, `135` (stored just above 0.135) as `0.14` and
`145` (stored just below 0.145) as `0.14`.

Points in time are nanoseconds since the Unix epoch (`i128`). The library
does not read the clock or draw identifiers: constructors take the fetch
or sighting time and the job id as arguments, and `app/clock.rs` reads the
clock (chrono) and draws UUIDv7 identifiers (uuid).
