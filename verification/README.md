# tokend

A multi-model tokenizer daemon for LLM inference infrastructure: it loads
Hugging Face or local tokenizers, applies chat templates, and answers token
ids over HTTP (TCP and a Unix domain socket) and as an Envoy external
processor.

The decisions of the daemon are a library verified with Verus (`src/`):

- `tokenizer` — the registry of tokenizers and chat templates, with its
  invariant and the laws of loading and unloading;
- `chat_template` — messages, tools and their JSON forms, the chat template
  engine, and the law that messages read back as they were written;
- `config` — configuration types, defaults, `${VAR}` expansion and `~/`
  resolution;
- `server::http`, `server::grpc`, `server::ext_proc` — the replies of each
  transport, the metrics each request records, and the external processor's
  mutations and fail-open behaviour;
- `payloads`, `bench` — benchmark payloads, and the load generator's count
  formatting, synthetic conversations and latency figures;
- `json`, `text` — the JSON model and text helpers the rest is stated over.

Calls into `tokenizers`, `minijinja`, `dashmap`, `serde_json` and `home`
stand behind small trusted wrappers whose contracts say what the library
relies on. Percent decoding of model paths is stated in a few lines and
verified in `server::http`.

`app/` holds the program around it: the command line, reading the
configuration file, fetching tokenizers, Prometheus metrics, and the axum and
tonic servers. `tests/` exercises the library with the real crates linked.
