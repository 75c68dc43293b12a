# repair_json

Repairs almost-JSON text in one streaming pass: single-quoted strings become
double-quoted (an escaped `\'` loses its backslash, a bare `"` inside gains
one), trailing commas before `]` or `}` are removed, and closers that match no
open container are skipped. Valid JSON is returned as it is, and a repaired
text is checked by serde_json unless the caller asks for the pass's own
structural checks alone.

Layout of `src/`:

- `alphabet` – the punctuation the pass recognises, over bytes and characters.
- `scan` – the pass as a state machine (`step`, `scan`, `repaired`) and its
  byte implementation `repair_pass`.
- `lex` – how JSON nests; laws that the pass's output is well nested.
- `commas` – the law that trailing commas are gone (outside runs of commas).
- `clean` – the law that text needing no repair is left unchanged, and
  idempotence.
- `validate` – the serde_json checks (trusted wrappers).
- `message` – error messages and decimal rendering.
- `lib` – `repair_json`, `repair_json_aws_smithy`, `repair_structure`.
- `bench`, `rust_val`, `rust_no_val`, `bench_data` – the variants and inputs
  the benchmark runs.
- `text` – the repair over `&str` used by the command-line tool.

`app/` holds the command-line tool and the benchmark and demonstration
programs.
